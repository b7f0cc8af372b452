//! The configuration of one run and its validation.
use crate::error::{Error, ErrorKind};
use vstd::prelude::*;

verus! {

/// The three settings of a run: where to read, where to write, and the
/// extension that replaces the one of a missing file.
#[derive(Debug, Clone, PartialEq, Eq)]
pub struct Config {
    pub input_file: String,
    pub output_file: String,
    pub new_ext: String,
}

/// The reasons for which a configuration is rejected, in the order in which
/// they are looked for.
#[derive(Debug, Clone, Copy, PartialEq, Eq, Structural)]
pub enum ConfigFault {
    EmptyInputFile,
    EmptyOutputFile,
    EmptyNewExt,
    SameInputAndOutput,
}

impl ConfigFault {
    /// The text reported for this fault.
    pub open spec fn message(self) -> Seq<char> {
        match self {
            ConfigFault::EmptyInputFile => "`inputFile` is empty"@,
            ConfigFault::EmptyOutputFile => "`outputFile` is empty"@,
            ConfigFault::EmptyNewExt => "`newExt` is empty"@,
            ConfigFault::SameInputAndOutput => "`inputFile` shouldn't be the same as `outputFile`"@,
        }
    }
}

impl Config {
    /// The first fault of this configuration, if it has one.
    pub open spec fn fault(&self) -> Option<ConfigFault> {
        if self.input_file@.len() == 0 {
            Some(ConfigFault::EmptyInputFile)
        } else if self.output_file@.len() == 0 {
            Some(ConfigFault::EmptyOutputFile)
        } else if self.new_ext@.len() == 0 {
            Some(ConfigFault::EmptyNewExt)
        } else if self.input_file@ == self.output_file@ {
            Some(ConfigFault::SameInputAndOutput)
        } else {
            None
        }
    }

    /// A configuration is valid when every field is non-empty and the input
    /// and output files differ.
    pub open spec fn is_valid(&self) -> bool {
        &&& self.input_file@.len() > 0
        &&& self.output_file@.len() > 0
        &&& self.new_ext@.len() > 0
        &&& self.input_file@ != self.output_file@
    }

    /// Accepts exactly the valid configurations; a rejected one is reported
    /// with the message of its first fault.
    pub fn validate(&self) -> (r: Result<(), Error>)
        ensures
            r is Ok <==> self.is_valid(),
            r is Ok <==> self.fault() is None,
            r matches Err(e) ==> e.kind == ErrorKind::Config && e.message@
                == self.fault()->0.message(),
    {
        if self.input_file.as_str().is_empty() {
            return Err(Error::new(ErrorKind::Config, String::from_str("`inputFile` is empty")));
        }
        if self.output_file.as_str().is_empty() {
            return Err(Error::new(ErrorKind::Config, String::from_str("`outputFile` is empty")));
        }
        if self.new_ext.as_str().is_empty() {
            return Err(Error::new(ErrorKind::Config, String::from_str("`newExt` is empty")));
        }
        if self.input_file == self.output_file {
            return Err(
                Error::new(
                    ErrorKind::Config,
                    String::from_str("`inputFile` shouldn't be the same as `outputFile`"),
                ),
            );
        }
        Ok(())
    }
}

} // verus!
