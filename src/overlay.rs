use vstd::prelude::*;

verus! {

/// The two user configuration files that are copied over the template.
#[derive(Debug, Clone, Copy, PartialEq, Eq)]
pub enum ConfigFile {
    KeyboardToml,
    VialJson,
}

impl ConfigFile {
    /// Both overlay files, in the order they are copied.
    pub fn all() -> (r: [ConfigFile; 2])
        ensures
            r@ == seq![ConfigFile::KeyboardToml, ConfigFile::VialJson],
    {
        let r = [ConfigFile::KeyboardToml, ConfigFile::VialJson];
        assert(r@ =~= seq![ConfigFile::KeyboardToml, ConfigFile::VialJson]);
        r
    }

    /// The fixed name the file takes inside the destination directory.
    pub fn file_name(&self) -> (r: &'static str)
        ensures
            *self is KeyboardToml ==> r@ == "keyboard.toml"@,
            *self is VialJson ==> r@ == "vial.json"@,
    {
        match self {
            ConfigFile::KeyboardToml => "keyboard.toml",
            ConfigFile::VialJson => "vial.json",
        }
    }
}

} // verus!
