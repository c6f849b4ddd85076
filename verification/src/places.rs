//! Where the user's configuration lies.

use vstd::prelude::*;

use crate::fs_path;
use crate::fs_path::FsPath;
use crate::views;

verus! {

/// `dirs::config_dir`, as bytes. Which directory it is depends on the platform and the
/// environment and is left open; it is never the empty path.
#[verifier::external_body]
fn config_dir() -> (dir: Option<FsPath>)
    ensures
        dir matches Some(d) ==> d@.len() > 0,
{
    dirs::config_dir().map(|d| FsPath::from_bytes(d.into_os_string().into_encoded_bytes()))
}

/// `dirs::home_dir`, as bytes. Which directory it is depends on the environment; nothing is
/// claimed of it.
#[verifier::external_body]
fn home_dir() -> (dir: Option<FsPath>) {
    dirs::home_dir().map(|d| FsPath::from_bytes(d.into_os_string().into_encoded_bytes()))
}

/// The directory `.config` of a home directory.
pub open spec fn dot_config(home: Seq<u8>) -> Seq<u8> {
    fs_path::adjoined(home, vstd::utf8::encode_utf8(".config"@))
}

/// The directory `Library/Application Support` of a home directory.
pub open spec fn application_support(home: Seq<u8>) -> Seq<u8> {
    fs_path::adjoined(
        fs_path::adjoined(home, vstd::utf8::encode_utf8("Library"@)),
        vstd::utf8::encode_utf8("Application Support"@),
    )
}

/// Where the user's configuration lies, given the system's configuration directory and the home
/// directory: in the former, but in `.config` of the home directory where the system keeps it in
/// `Library/Application Support`.
pub open spec fn place_of(config: Option<Seq<u8>>, home: Option<Seq<u8>>) -> Option<Seq<u8>> {
    match (config, home) {
        (Some(c), Some(h)) => if fs_path::same(c, application_support(h)) {
            Some(dot_config(h))
        } else {
            Some(c)
        },
        _ => config,
    }
}

/// Where the user's configuration lies, given the system's configuration directory and the home
/// directory.
pub fn config_place_in(config: Option<FsPath>, home: Option<FsPath>) -> (r: Option<FsPath>)
    ensures
        views::opt_path(r) == place_of(views::opt_path(config), views::opt_path(home)),
{
    match (config, home) {
        (Some(c), Some(h)) => {
            let support = h.join(&FsPath::from_text("Library")).join(
                &FsPath::from_text("Application Support"),
            );
            if c.same_as(&support) {
                Some(h.join(&FsPath::from_text(".config")))
            } else {
                Some(c)
            }
        },
        (Some(c), None) => Some(c),
        (None, _) => None,
    }
}

/// Where the user's configuration lies. Which directory that is depends on the platform and the
/// environment.
pub fn config_place() -> (r: Option<FsPath>)
    ensures
        exists|config: Option<Seq<u8>>, home: Option<Seq<u8>>|
            (config matches Some(c) ==> c.len() > 0) && views::opt_path(r) == #[trigger] place_of(
                config,
                home,
            ),
{
    let config = config_dir();
    let home = home_dir();
    let ghost c = views::opt_path(config);
    let ghost h = views::opt_path(home);
    let r = config_place_in(config, home);
    assert(views::opt_path(r) == place_of(c, h));
    r
}

/// Whether the system keeps configuration in `.config` of the home directory or in
/// `Library/Application Support`, it lies in `.config`.
pub proof fn configuration_lies_in_dot_config(config: Seq<u8>, home: Seq<u8>)
    requires
        config == dot_config(home) || config == application_support(home),
    ensures
        place_of(Some(config), Some(home)) == Some(dot_config(home)),
{
}

/// Configuration that the system keeps anywhere else stays there; without a configuration
/// directory there is none, and without a home directory it is the system's.
pub proof fn other_places_stay(config: Option<Seq<u8>>, home: Option<Seq<u8>>)
    ensures
        config is None ==> place_of(config, home) is None,
        home is None ==> place_of(config, home) == config,
        config is Some && home is Some && !fs_path::same(
            config->0,
            application_support(home->0),
        ) ==> place_of(config, home) == config,
        config is Some && home is Some && fs_path::same(config->0, application_support(home->0))
            ==> place_of(config, home) == Some(dot_config(home->0)),
{
}

/// The two directories lie in the home directory, under their names.
pub proof fn configuration_lies_at_home(home: Seq<u8>)
    ensures
        fs_path::names(dot_config(home)) == fs_path::names(home).push(
            vstd::utf8::encode_utf8(".config"@),
        ),
        fs_path::names(application_support(home)) == fs_path::names(home).push(
            vstd::utf8::encode_utf8("Library"@),
        ).push(vstd::utf8::encode_utf8("Application Support"@)),
        fs_path::rooted(dot_config(home)) == fs_path::rooted(home),
        fs_path::rooted(application_support(home)) == fs_path::rooted(home),
{
    reveal_strlit(".config");
    reveal_strlit("Library");
    reveal_strlit("Application Support");
    vstd::utf8::is_ascii_chars_encode_utf8(".config"@);
    vstd::utf8::is_ascii_chars_encode_utf8("Library"@);
    vstd::utf8::is_ascii_chars_encode_utf8("Application Support"@);
    let library = vstd::utf8::encode_utf8("Library"@);
    fs_path::adjoined_name_is_last(home, vstd::utf8::encode_utf8(".config"@));
    fs_path::adjoined_name_is_last(home, library);
    fs_path::adjoined_name_is_last(
        fs_path::adjoined(home, library),
        vstd::utf8::encode_utf8("Application Support"@),
    );
}

} // verus!
