//! Server configuration and its default locations.
use vstd::prelude::*;

verus! {

/// A path prefix that Windows marks as verbatim (`\\?\`); joining onto such a
/// path normalizes it, so nothing is stated of that case.
pub open spec fn is_verbatim(base: Seq<char>) -> bool {
    base.len() >= 4 && base[0] == '\\' && base[1] == '\\' && base[2] == '?' && base[3] == '\\'
}

/// A relative path component without a root or a drive prefix.
pub open spec fn is_plain_relative(part: Seq<char>) -> bool {
    &&& part.len() > 0
    &&& part[0] != '/'
    &&& part[0] != '\\'
    &&& !(part.len() >= 2 && part[1] == ':')
}

/// A base that is only a drive (an ASCII letter and `:`, as in `C:`), after
/// which Windows adds no separator.
pub open spec fn is_drive_only(base: Seq<char>) -> bool {
    &&& base.len() == 2
    &&& base[1] == ':'
    &&& (('a' <= base[0] && base[0] <= 'z') || ('A' <= base[0] && base[0] <= 'Z'))
}

/// `joined` is what joining the relative component `part` onto `base` gives:
/// `part` alone onto an empty base; `base` and `part` run together after a
/// `/`; otherwise one path separator between them — `/`, or `\` on Windows,
/// where a base ending in `\` or being a bare drive takes none.
pub open spec fn joined_with_separator(base: Seq<char>, part: Seq<char>, joined: Seq<char>) -> bool {
    if base.len() == 0 {
        joined == part
    } else if base.last() == '/' {
        joined == base + part
    } else if base.last() == '\\' || is_drive_only(base) {
        joined == base + part || joined == base + seq!['/'] + part
    } else {
        joined == base + seq!['/'] + part || joined == base + seq!['\\'] + part
    }
}

/// `std::path::Path::join` of a relative component, converted to text with
/// `to_string_lossy` (lossless here: both inputs are valid UTF-8). As
/// `PathBuf::push` documents, joining extends the base path, putting the
/// platform's separator (`/`, or `\` on Windows) in between unless the base is
/// empty or already ends with a separator. Which platform runs is not stated,
/// and nothing is stated for a Windows verbatim base (`\\?\`), which joining
/// normalizes.
#[verifier::external_body]
fn path_join(base: &str, part: &str) -> (r: String)
    requires
        is_plain_relative(part@),
    ensures
        !is_verbatim(base@) ==> joined_with_separator(base@, part@, r@),
{
    std::path::Path::new(base).join(part).to_string_lossy().into_owned()
}

/// Configuration for a plexus-music server instance.
pub struct MusicServerConfig {
    /// DynamicHub name (e.g. "music")
    pub hub_name: String,
    /// WebSocket port
    pub port: u16,
    /// Run in stdio transport mode (line-delimited JSON-RPC over stdin/stdout)
    pub stdio: bool,
    /// Enable MCP HTTP server on port + 1
    pub mcp: bool,
    /// HTTP audio proxy port (default: port + 2)
    pub audio_port: Option<u16>,
    /// Path to the SQLite database for likes & downloads
    pub db_path: String,
    /// Base directory for player state, playlists, and other persistent data.
    pub data_dir: String,
    /// Optional URL template for track links; `{}` is replaced with the track ID.
    pub track_url_template: Option<String>,
}

/// The directory that `.plexus/{app_name}` is placed below: the home
/// directory, or `.` without one.
pub open spec fn data_base(home: Option<String>) -> Seq<char> {
    match home {
        Some(h) => h@,
        None => "."@,
    }
}

impl MusicServerConfig {
    /// Default data directory for a named app: `.plexus/{app_name}` joined onto
    /// the home directory `home` (which the caller reads from the
    /// environment), or onto `.` without one.
    pub fn default_data_dir(home: Option<String>, app_name: &str) -> (r: String)
        ensures
            !is_verbatim(data_base(home)) ==> joined_with_separator(
                data_base(home),
                ".plexus/"@ + app_name@,
                r@,
            ),
    {
        let base = match &home {
            Some(h) => h.clone(),
            None => ".".to_owned(),
        };
        let mut part = ".plexus/".to_owned();
        crate::text::append_str(&mut part, app_name);
        proof {
            reveal_strlit(".plexus/");
            reveal_strlit(".");
        }
        path_join(base.as_str(), part.as_str())
    }

    /// Default db path within a data directory: `{data_dir}/mono.db`
    pub fn default_db_path(data_dir: &str) -> (r: String)
        ensures
            !is_verbatim(data_dir@) ==> joined_with_separator(data_dir@, "mono.db"@, r@),
    {
        proof {
            reveal_strlit("mono.db");
        }
        path_join(data_dir, "mono.db")
    }

    /// The HTTP audio proxy port: the configured one, else two above the
    /// WebSocket port.
    pub fn effective_audio_port(&self) -> (r: u16)
        requires
            self.audio_port is Some || self.port <= u16::MAX - 2,
        ensures
            r == (match self.audio_port {
                Some(p) => p,
                None => (self.port + 2) as u16,
            }),
    {
        match self.audio_port {
            Some(p) => p,
            None => self.port + 2,
        }
    }

    /// The MCP HTTP port: one above the WebSocket port.
    pub fn mcp_port(&self) -> (r: u16)
        requires
            self.port < u16::MAX,
        ensures
            r == self.port + 1,
    {
        self.port + 1
    }
}

} // verus!
