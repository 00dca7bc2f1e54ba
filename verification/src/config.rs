use vstd::prelude::*;
use vstd::string::StringExecFns;

verus! {

/// The glyph set the rain draws from.
#[derive(Debug, PartialEq, Eq, Structural, Clone, Copy)]
pub enum Charset {
    Katakana,
    Latin,
    Digits,
    Mixed,
}

impl Default for Charset {
    fn default() -> (c: Self)
        ensures
            c == Charset::Katakana,
    {
        Charset::Katakana
    }
}


/// Settings of the screensaver. `speed_bits` holds the rain speed multiplier as the
/// IEEE-754 single-precision bit pattern of the value: the library stores and hands it
/// on, and never computes with it.
#[derive(Debug, Clone)]
pub struct Config {
    pub idle_timeout_secs: u64,
    pub color: String,
    pub fps: u32,
    pub speed_bits: u32,
    pub charset: Charset,
}

/// Bit pattern of the single-precision value 1.0.
pub const DEFAULT_SPEED_BITS: u32 = 0x3F80_0000;

fn default_timeout() -> (t: u64)
    ensures
        t == 600,
{
    600
}

fn default_color() -> (c: String)
    ensures
        c@ == "#00ff00"@,
{
    String::from_str("#00ff00")
}

fn default_fps() -> (f: u32)
    ensures
        f == 30,
{
    30
}

fn default_speed_bits() -> (b: u32)
    ensures
        b == DEFAULT_SPEED_BITS,
{
    DEFAULT_SPEED_BITS
}

impl Default for Config {
    /// Ten minutes of inactivity, green rain, 30 frames per second, speed 1.0, katakana.
    fn default() -> (cfg: Self)
        ensures
            cfg.idle_timeout_secs == 600,
            cfg.color@ == "#00ff00"@,
            cfg.fps == 30,
            cfg.speed_bits == DEFAULT_SPEED_BITS,
            cfg.charset == Charset::Katakana,
    {
        Config {
            idle_timeout_secs: default_timeout(),
            color: default_color(),
            fps: default_fps(),
            speed_bits: default_speed_bits(),
            charset: Charset::default(),
        }
    }
}

/// What `Path::join` gives on Unix, as text: an absolute `part` (one starting with
/// '/') replaces `base`; otherwise `part` is appended, after a '/' unless `base` is
/// empty or already ends with one.
pub open spec fn joined_path(base: Seq<char>, part: Seq<char>) -> Seq<char> {
    if part.len() > 0 && part[0] == '/' {
        part
    } else if base.len() == 0 || base.last() == '/' {
        base + part
    } else {
        base + seq!['/'] + part
    }
}

/// `std::path::Path::join` on Unix: `base` extended by `part` as `joined_path` states.
/// Both are valid UTF-8, so is the joined path, and the lossy conversion back to text
/// changes nothing.
#[verifier::external_body]
fn path_join(base: &str, part: &str) -> (joined: String)
    ensures
        joined@ == joined_path(base@, part@),
{
    std::path::Path::new(base).join(part).to_string_lossy().into_owned()
}

/// Where the configuration file lives, given the values of `XDG_CONFIG_HOME` and `HOME`
/// (each `None` when unset or not Unicode).
pub open spec fn config_path_spec(xdg: Option<Seq<char>>, home: Option<Seq<char>>) -> Option<Seq<char>> {
    match xdg {
        Some(x) => Some(joined_path(joined_path(x, "matrix-screensaver"@), "config.toml"@)),
        None => match home {
            Some(h) => Some(
                joined_path(
                    joined_path(joined_path(h, ".config"@), "matrix-screensaver"@),
                    "config.toml"@,
                ),
            ),
            None => None,
        },
    }
}

/// The view of an optional string slice.
pub open spec fn opt_view(s: Option<&str>) -> Option<Seq<char>> {
    match s {
        Some(x) => Some(x@),
        None => None,
    }
}

/// For a base directory that does not end with '/', the configuration file is
/// `<base>/matrix-screensaver/config.toml`, with `XDG_CONFIG_HOME` as the base when it is
/// set, and `$HOME/.config` when it is not.
pub proof fn lemma_config_path_layout(base: Seq<char>, other: Option<Seq<char>>)
    requires
        base.len() > 0,
        base.last() != '/',
    ensures
        config_path_spec(Some(base), other) == Some(base + "/matrix-screensaver/config.toml"@),
        config_path_spec(None, Some(base)) == Some(base + "/.config/matrix-screensaver/config.toml"@),
{
    reveal_strlit("matrix-screensaver");
    reveal_strlit("config.toml");
    reveal_strlit(".config");
    reveal_strlit("/matrix-screensaver/config.toml");
    reveal_strlit("/.config/matrix-screensaver/config.toml");
    let a = joined_path(base, "matrix-screensaver"@);
    assert(a =~= base + seq!['/'] + "matrix-screensaver"@);
    assert(joined_path(a, "config.toml"@) =~= base + "/matrix-screensaver/config.toml"@);
    let h = joined_path(base, ".config"@);
    assert(h =~= base + seq!['/'] + ".config"@);
    let b = joined_path(h, "matrix-screensaver"@);
    assert(b =~= h + seq!['/'] + "matrix-screensaver"@);
    assert(joined_path(b, "config.toml"@) =~= base + "/.config/matrix-screensaver/config.toml"@);
}

/// A base that already ends with '/' gets no second one, and an empty base gives the
/// relative path `matrix-screensaver/config.toml`.
pub proof fn lemma_config_path_edge_bases(base: Seq<char>, other: Option<Seq<char>>)
    requires
        base.len() > 0,
        base.last() == '/',
    ensures
        config_path_spec(Some(base), other) == Some(base + "matrix-screensaver/config.toml"@),
        config_path_spec(Some(Seq::empty()), other) == Some("matrix-screensaver/config.toml"@),
{
    reveal_strlit("matrix-screensaver");
    reveal_strlit("config.toml");
    reveal_strlit("matrix-screensaver/config.toml");
    let a = joined_path(base, "matrix-screensaver"@);
    assert(a =~= base + "matrix-screensaver"@);
    assert(joined_path(a, "config.toml"@) =~= base + "matrix-screensaver/config.toml"@);
    let e = joined_path(Seq::empty(), "matrix-screensaver"@);
    assert(e =~= "matrix-screensaver"@);
    assert(joined_path(e, "config.toml"@) =~= "matrix-screensaver/config.toml"@);
}

/// `$XDG_CONFIG_HOME/matrix-screensaver/config.toml`, or when that variable is unset
/// `$HOME/.config/matrix-screensaver/config.toml`, or nothing when both are unset.
pub fn config_path(xdg_config_home: Option<&str>, home: Option<&str>) -> (path: Option<String>)
    ensures
        match path {
            Some(p) => config_path_spec(opt_view(xdg_config_home), opt_view(home)) == Some(p@),
            None => config_path_spec(opt_view(xdg_config_home), opt_view(home)) is None,
        },
{
    let base = match xdg_config_home {
        Some(x) => String::from_str(x),
        None => match home {
            Some(h) => path_join(h, ".config"),
            None => {
                return None;
            },
        },
    };
    let dir = path_join(base.as_str(), "matrix-screensaver");
    Some(path_join(dir.as_str(), "config.toml"))
}

} // verus!
