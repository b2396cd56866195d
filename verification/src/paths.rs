//! Where the settings and the control socket are kept. Paths are Unix paths, as bytes.
use vstd::prelude::*;
use vstd::string::*;
use vstd::utf8::{encode_utf8, is_ascii_chars_encode_utf8};

use crate::config::{Config, ConfigView};

verus! {

/// The byte that separates the components of a path.
pub const SEPARATOR: u8 = 0x2f;

/// The bytes of an optional path.
pub open spec fn option_bytes(path: Option<Vec<u8>>) -> Option<Seq<u8>> {
    match path {
        Some(p) => Some(p@),
        None => None,
    }
}

/// The path of `name` in the directory `base`.
pub open spec fn path_in(base: Seq<u8>, name: Seq<u8>) -> Seq<u8> {
    if base.len() == 0 || base.last() == SEPARATOR {
        base + name
    } else {
        base.push(SEPARATOR) + name
    }
}

/// The directory of the settings, in an environment that names a configuration directory or a home
/// directory.
pub open spec fn settings_directory(
    config_home: Option<Seq<u8>>,
    home: Option<Seq<u8>>,
) -> Option<Seq<u8>> {
    match (config_home, home) {
        (Some(base), _) => Some(path_in(base, encode_utf8("niri-android-monitor"@))),
        (None, Some(base)) => Some(
            path_in(
                path_in(base, encode_utf8(".config"@)),
                encode_utf8("niri-android-monitor"@),
            ),
        ),
        (None, None) => None,
    }
}

/// The files that belong to the settings: the directory, the file itself, and the file that is
/// written first and then renamed.
pub struct SettingsLocation {
    pub directory: Vec<u8>,
    pub file: Vec<u8>,
    pub temporary: Vec<u8>,
}

impl SettingsLocation {
    /// The files are those of `directory`.
    pub open spec fn is_in(&self, directory: Seq<u8>) -> bool {
        &&& self.directory@ == directory
        &&& self.file@ == path_in(directory, encode_utf8("settings.json"@))
        &&& self.temporary@ == path_in(directory, encode_utf8("settings.json.tmp"@))
    }
}

/// The path of `name` in the directory `base`.
fn join(base: &Vec<u8>, name: &str) -> (path: Vec<u8>)
    ensures
        path@ == path_in(base@, encode_utf8(name@)),
{
    let mut path: Vec<u8> = Vec::new();
    path.extend_from_slice(base.as_slice());
    assert(path@ =~= base@);
    if base.len() > 0 && base[base.len() - 1] != SEPARATOR {
        path.push(SEPARATOR);
    }
    let ghost before = path@;
    path.extend_from_slice(name.as_bytes());
    assert(path@ =~= before + encode_utf8(name@));
    path
}

/// Where the settings are kept. `config_home` and `home` are what the environment says.
pub fn settings_path(config_home: Option<Vec<u8>>, home: Option<Vec<u8>>) -> (location: Result<
    SettingsLocation,
    String,
>)
    ensures
        match settings_directory(option_bytes(config_home), option_bytes(home)) {
            Some(directory) => location matches Ok(files) && files.is_in(directory),
            None => location matches Err(message) && message@ == "HOME is not set"@,
        },
{
    let directory: Vec<u8> = match config_home {
        Some(base) => join(&base, "niri-android-monitor"),
        None => match home {
            Some(base) => join(&join(&base, ".config"), "niri-android-monitor"),
            None => return Err("HOME is not set".to_owned()),
        },
    };
    let file = join(&directory, "settings.json");
    let temporary = join(&directory, "settings.json.tmp");
    Ok(SettingsLocation { directory, file, temporary })
}

/// The path of the control socket in the directory `base`.
pub open spec fn socket_in(base: Seq<u8>) -> Seq<u8> {
    path_in(base, encode_utf8("niri-android-monitor.sock"@))
}

/// Where the control socket is. `runtime` is what the environment says.
pub fn control_socket_path(runtime: Option<Vec<u8>>) -> (path: Result<Vec<u8>, String>)
    ensures
        match runtime {
            Some(base) => path matches Ok(p) && p@ == path_in(
                base@,
                encode_utf8("niri-android-monitor.sock"@),
            ),
            None => path matches Err(message) && message@ == "XDG_RUNTIME_DIR is not set"@,
        },
        runtime matches Some(base) ==> (path matches Ok(p) && p@ == socket_in(base@)),
{
    match runtime {
        Some(base) => Ok(join(&base, "niri-android-monitor.sock")),
        None => Err("XDG_RUNTIME_DIR is not set".to_owned()),
    }
}

/// What was found where the settings are kept.
pub enum SettingsFile {
    /// Settings that could be read.
    Read(Config),
    /// A file that does not hold settings.
    Malformed,
    /// No file.
    Missing,
    /// A file that could not be read.
    Unreadable,
}

/// The settings that were saved, if they could be read, else the defaults.
pub open spec fn saved_or(file: SettingsFile, defaults: ConfigView) -> ConfigView {
    match file {
        SettingsFile::Read(saved) => saved@,
        _ => defaults,
    }
}

/// The settings to start with: those that were saved, if they could be read, else the defaults.
pub fn load_settings(file: SettingsFile, defaults: &Config) -> (settings: Config)
    ensures
        settings@ == saved_or(file, defaults@),
{
    match file {
        SettingsFile::Read(saved) => saved,
        _ => defaults.clone(),
    }
}

/// What to do before the control socket is bound.
pub enum SocketAction {
    /// Bind it.
    Bind,
    /// Remove what an earlier daemon left, then bind it.
    RemoveAndBind,
    /// Give up: a daemon answers there.
    GiveUp,
}

/// Decides about the control socket: whether its path exists, and whether a daemon answers there.
pub fn prepare_socket(exists: bool, answers: bool) -> (action: SocketAction)
    ensures
        action is Bind <==> !exists,
        action is RemoveAndBind <==> exists && !answers,
        action is GiveUp <==> exists && answers,
{
    if !exists {
        SocketAction::Bind
    } else if answers {
        SocketAction::GiveUp
    } else {
        SocketAction::RemoveAndBind
    }
}

/// The file that is written first lies beside the settings file and is another one, so that
/// renaming it replaces the settings in one step.
pub proof fn law_temporary_lies_beside_the_file(files: SettingsLocation, directory: Seq<u8>)
    requires
        files.is_in(directory),
    ensures
        files.file@ != files.temporary@,
        files.temporary@ == files.file@ + encode_utf8(".tmp"@),
{
    reveal_strlit("settings.json");
    reveal_strlit("settings.json.tmp");
    reveal_strlit(".tmp");
    assert("settings.json.tmp"@ =~= "settings.json"@ + ".tmp"@);
    is_ascii_chars_encode_utf8("settings.json"@);
    is_ascii_chars_encode_utf8("settings.json.tmp"@);
    is_ascii_chars_encode_utf8(".tmp"@);
    assert(encode_utf8("settings.json.tmp"@) =~= encode_utf8("settings.json"@) + encode_utf8(
        ".tmp"@,
    ));
    assert(files.temporary@ =~= files.file@ + encode_utf8(".tmp"@));
}

/// The settings lie below the configuration directory where one is named, and else below `.config` in
/// the home directory, in a directory of their own; without either there is no place for them. Joining
/// puts one slash between two components where there is none yet.
pub proof fn law_settings_have_their_own_directory(base: Seq<u8>, home: Option<Seq<u8>>)
    ensures
        settings_directory(Some(base), home) == Some(
            path_in(base, encode_utf8("niri-android-monitor"@)),
        ),
        settings_directory(None, Some(base)) == Some(
            path_in(
                path_in(base, encode_utf8(".config"@)),
                encode_utf8("niri-android-monitor"@),
            ),
        ),
        settings_directory(None, None) is None,
        forall|name: Seq<u8>|
            #![trigger path_in(base, name)]
            {
                let path = path_in(base, name);
                &&& path.take(base.len() as int) == base
                &&& path.skip(path.len() - name.len()) == name
                &&& base.len() > 0 && base.last() != 0x2f ==> path.len() == base.len() + 1
                    + name.len() && path[base.len() as int] == 0x2f
                &&& base.len() == 0 || base.last() == 0x2f ==> path.len() == base.len() + name.len()
            },
{
    assert forall|name: Seq<u8>|
        #![trigger path_in(base, name)]
        {
            let path = path_in(base, name);
            &&& path.take(base.len() as int) == base
            &&& path.skip(path.len() - name.len()) == name
            &&& base.len() > 0 && base.last() != 0x2f ==> path.len() == base.len() + 1 + name.len()
                && path[base.len() as int] == 0x2f
            &&& base.len() == 0 || base.last() == 0x2f ==> path.len() == base.len() + name.len()
        } by {
        let path = path_in(base, name);
        assert(path.take(base.len() as int) =~= base);
        assert(path.skip(path.len() - name.len()) =~= name);
    }
}

/// Settings that were read are taken in full, and the defaults in full where none could be.
pub proof fn law_saved_settings_come_first(saved: Config, defaults: ConfigView)
    ensures
        saved_or(SettingsFile::Read(saved), defaults) == saved@,
        saved_or(SettingsFile::Malformed, defaults) == defaults,
        saved_or(SettingsFile::Missing, defaults) == defaults,
        saved_or(SettingsFile::Unreadable, defaults) == defaults,
{
}

/// The control socket lies in the directory that the environment names, under its own name.
pub proof fn law_socket_lies_in_the_runtime_directory(base: Seq<u8>)
    ensures
        ({
            let path = socket_in(base);
            let name = encode_utf8("niri-android-monitor.sock"@);
            &&& path.take(base.len() as int) == base
            &&& path.skip(path.len() - name.len()) == name
            &&& base.len() > 0 && base.last() != 0x2f ==> path.len() == base.len() + 1 + name.len()
                && path[base.len() as int] == 0x2f
            &&& base.len() == 0 || base.last() == 0x2f ==> path.len() == base.len() + name.len()
        }),
{
    law_settings_have_their_own_directory(base, None);
}

/// The settings file and the file that is written first lie in the directory of the settings.
pub proof fn law_settings_files_have_their_names(files: SettingsLocation, directory: Seq<u8>)
    requires
        files.is_in(directory),
    ensures
        files.directory@ == directory,
        files.file@ == path_in(directory, encode_utf8("settings.json"@)),
        files.temporary@ == path_in(directory, encode_utf8("settings.json.tmp"@)),
{
}

} // verus!
