//! Application settings: the serving address and the running mode. Reading
//! the configuration files and the environment happens outside this crate;
//! what is decided from their contents is here.

use vstd::prelude::*;

verus! {

/// Where the HTTP server listens.
#[derive(Debug)]
pub struct Application {
    pub port: u16,
    pub host: String,
}

/// The running mode the process was started in.
#[derive(Clone, Copy, PartialEq, Eq, Structural, Debug)]
pub enum AppEnv {
    Dev,
    Prod,
}

impl AppEnv {
    /// The settings file read for this mode, on top of the base file.
    pub fn config_file(&self) -> (r: &'static str)
        ensures
            *self == AppEnv::Dev ==> r@ == "dev.yaml"@,
            *self == AppEnv::Prod ==> r@ == "prod.yaml"@,
    {
        match self {
            AppEnv::Dev => "dev.yaml",
            AppEnv::Prod => "prod.yaml",
        }
    }

    /// The mode named by an environment value: exactly "dev" or "prod".
    pub fn from_name(value: &str) -> (r: Option<AppEnv>)
        ensures
            r == (if value@ == "dev"@ {
                Some(AppEnv::Dev)
            } else if value@ == "prod"@ {
                Some(AppEnv::Prod)
            } else {
                None::<AppEnv>
            }),
    {
        if crate::utilities::str_eq(value, "dev") {
            Some(AppEnv::Dev)
        } else if crate::utilities::str_eq(value, "prod") {
            Some(AppEnv::Prod)
        } else {
            None
        }
    }
}

} // verus!
