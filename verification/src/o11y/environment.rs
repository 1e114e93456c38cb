//! The deployment environment reported with every record.

use vstd::prelude::*;

verus! {

/// The deployment environment, reported as the `deployment.environment.name` resource attribute.
#[derive(Debug, Clone, PartialEq, Eq)]
pub enum Environment {
    /// A local or test deployment. The default.
    Development,
    /// A live deployment serving real users.
    Production,
    /// Any other environment name, e.g. `"staging"`.
    Custom(String),
}

impl Default for Environment {
    fn default() -> (e: Self)
        ensures
            e is Development,
    {
        Environment::Development
    }
}

impl Environment {
    /// The environment's name: `development`, `production`, or the custom name itself.
    pub open spec fn text(&self) -> Seq<char> {
        match self {
            Environment::Development => "development"@,
            Environment::Production => "production"@,
            Environment::Custom(name) => name@,
        }
    }

    /// The environment's name, which is how it displays.
    pub fn to_string(&self) -> (s: String)
        ensures
            s@ == self.text(),
    {
        match self {
            Environment::Development => "development".to_owned(),
            Environment::Production => "production".to_owned(),
            Environment::Custom(name) => name.clone(),
        }
    }
}

} // verus!
