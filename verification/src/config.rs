//! The run's configuration, and its validation.
//!
//! Reading a configuration file from disk and parsing its syntax
//! happen in the driving process, which hands the plain values
//! over; the rules for what makes a configuration acceptable live
//! here.

use vstd::prelude::*;

verus! {

/// What a download run is configured with.
#[derive(Debug, Clone)]
pub struct Config {
    /// The tags to search for; must not be empty.
    pub tags: String,
    /// How many images to download; must be positive.
    pub num_imgs: u64,
    /// The directory to download the images to.
    pub download_dir: String,
    /// The request timeout in seconds; 0 means no timeout.
    pub timeout: u64,
}

/// Why a configuration was rejected.
#[derive(Debug, PartialEq, Eq, Structural)]
pub enum ConfigError {
    /// The tag query was empty.
    EmptyTags,
    /// Zero images were requested.
    ZeroImages,
}

impl ConfigError {
    /// The rejection's description.
    pub fn message(&self) -> (m: String)
        ensures
            self is EmptyTags ==> m@ == "tags must not be empty"@,
            self is ZeroImages ==> m@ == "num_imgs must not be zero"@,
    {
        match self {
            ConfigError::EmptyTags => String::from_str("tags must not be empty"),
            ConfigError::ZeroImages => String::from_str("num_imgs must not be zero"),
        }
    }
}

impl Config {
    /// A configuration is valid exactly when the tag query is
    /// non-empty and at least one image is requested.
    pub fn validate(&self) -> (r: Result<(), ConfigError>)
        ensures
            self.tags@.len() == 0 ==> r == Err::<(), ConfigError>(ConfigError::EmptyTags),
            self.tags@.len() > 0 && self.num_imgs == 0 ==> r == Err::<(), ConfigError>(
                ConfigError::ZeroImages,
            ),
            r is Ok <==> (self.tags@.len() > 0 && self.num_imgs > 0),
    {
        if self.tags.as_str().is_empty() {
            return Err(ConfigError::EmptyTags);
        }
        if self.num_imgs == 0 {
            return Err(ConfigError::ZeroImages);
        }
        Ok(())
    }
}

} // verus!
