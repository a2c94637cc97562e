//! Where the application keeps its files.
//!
//! A path is held as its text. A file or directory below a directory is the
//! directory's text, a slash, and the name.

use crate::ident::{id_string, id_text};
use vstd::prelude::*;
use vstd::string::StringExecFns;

verus! {

/// The two directories under which everything else lies.
#[derive(Debug, Clone)]
pub struct AppPaths {
    config_dir: String,
    data_dir: String,
}

/// The path of `name` below the directory `dir`.
pub open spec fn spec_join(dir: Seq<char>, name: Seq<char>) -> Seq<char> {
    dir + "/"@ + name
}

/// The path of `name` below the directory `dir`.
pub fn join(dir: &str, name: &str) -> (r: String)
    ensures
        r@ == spec_join(dir@, name@),
{
    let mut s: String = dir.to_owned();
    s.append("/");
    s.append(name);
    s
}

impl AppPaths {
    pub closed spec fn spec_config_dir(&self) -> Seq<char> {
        self.config_dir@
    }

    pub closed spec fn spec_data_dir(&self) -> Seq<char> {
        self.data_dir@
    }

    /// Paths below the given directories.
    pub fn with_dirs(config_dir: String, data_dir: String) -> (r: Self)
        ensures
            r.spec_config_dir() == config_dir@,
            r.spec_data_dir() == data_dir@,
    {
        AppPaths { config_dir, data_dir }
    }

    #[must_use]
    pub fn config_dir(&self) -> (r: &String)
        ensures
            r@ == self.spec_config_dir(),
    {
        &self.config_dir
    }

    #[must_use]
    pub fn data_dir(&self) -> (r: &String)
        ensures
            r@ == self.spec_data_dir(),
    {
        &self.data_dir
    }

    #[must_use]
    pub fn config_file(&self) -> (r: String)
        ensures
            r@ == spec_join(self.spec_config_dir(), "config.toml"@),
    {
        join(self.config_dir.as_str(), "config.toml")
    }

    #[must_use]
    pub fn state_file(&self) -> (r: String)
        ensures
            r@ == spec_join(self.spec_config_dir(), "state.toml"@),
    {
        join(self.config_dir.as_str(), "state.toml")
    }

    #[must_use]
    pub fn models_dir(&self) -> (r: String)
        ensures
            r@ == spec_join(self.spec_data_dir(), "models"@),
    {
        join(self.data_dir.as_str(), "models")
    }

    #[must_use]
    pub fn scripts_dir(&self) -> (r: String)
        ensures
            r@ == spec_join(self.spec_data_dir(), "scripts"@),
    {
        join(self.data_dir.as_str(), "scripts")
    }

    #[must_use]
    pub fn logs_dir(&self) -> (r: String)
        ensures
            r@ == spec_join(self.spec_data_dir(), "logs"@),
    {
        join(self.data_dir.as_str(), "logs")
    }

    /// The socket on which the coordinator listens.
    #[must_use]
    pub fn socket_path(&self) -> (r: String)
        ensures
            r@ == spec_join(self.spec_data_dir(), "pet.sock"@),
    {
        join(self.data_dir.as_str(), "pet.sock")
    }

    /// The file of a pet's model: the pet's identifier as text, with the
    /// extension `glb`, in the directory of the models.
    #[must_use]
    pub fn model_path(&self, pet_id: u128) -> (r: String)
        ensures
            r@ == spec_join(
                spec_join(self.spec_data_dir(), "models"@),
                id_text(pet_id) + ".glb"@,
            ),
    {
        let dir: String = self.models_dir();
        let mut name: String = id_string(pet_id);
        name.append(".glb");
        join(dir.as_str(), name.as_str())
    }

    /// The file of a pet's thumbnail, beside its model.
    #[must_use]
    pub fn thumbnail_path(&self, pet_id: u128) -> (r: String)
        ensures
            r@ == spec_join(
                spec_join(self.spec_data_dir(), "models"@),
                id_text(pet_id) + ".png"@,
            ),
    {
        let dir: String = self.models_dir();
        let mut name: String = id_string(pet_id);
        name.append(".png");
        join(dir.as_str(), name.as_str())
    }

    /// The file of a behaviour script.
    #[must_use]
    pub fn script_file(&self, script_id: &str) -> (r: String)
        ensures
            r@ == spec_join(
                spec_join(self.spec_data_dir(), "scripts"@),
                script_id@ + ".toml"@,
            ),
    {
        let dir: String = self.scripts_dir();
        let mut name: String = script_id.to_owned();
        name.append(".toml");
        join(dir.as_str(), name.as_str())
    }
}

} // verus!
