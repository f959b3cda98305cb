//! The daemon's configuration shape: logging sinks, the statistics poll
//! interval, the snippets directory, and the plugin lists; with the naming
//! rule for snippet files.

use vstd::prelude::*;

use crate::plugin::PluginConfig;
use crate::strutil::{ends_with, rfind_char, str_to_string, substring};

verus! {

/// A log verbosity, mirroring the standard level filters.
#[derive(Clone, Copy, PartialEq, Eq, Structural, Debug)]
pub enum LogLevel {
    Off,
    Error,
    Warn,
    Info,
    Debug,
    Trace,
}

impl Default for LogLevel {
    fn default() -> (r: Self)
        ensures
            r == LogLevel::Info,
    {
        LogLevel::Info
    }
}

/// One logging sink: a level, and a file path or standard error when none.
#[derive(Debug)]
pub struct LogConfig {
    pub level: LogLevel,
    pub file: Option<String>,
}

impl LogConfig {
    pub open spec fn spec_file(&self) -> Option<Seq<char>> {
        match self.file {
            Some(ref s) => Some(s@),
            None => None,
        }
    }
}

impl Default for LogConfig {
    /// The documented default sink: informational messages to stderr.
    fn default() -> (r: Self)
        ensures
            r.level == LogLevel::Info && r.spec_file() is None,
    {
        LogConfig { level: LogLevel::Info, file: None }
    }
}

impl Clone for LogConfig {
    fn clone(&self) -> (r: Self)
        ensures
            r.level == self.level && r.spec_file() == self.spec_file(),
    {
        LogConfig {
            level: self.level,
            file: match &self.file {
                Some(s) => Some(s.clone()),
                None => None,
            },
        }
    }
}

/// The daemon's whole configuration.
#[derive(Debug)]
pub struct Config {
    pub log: Vec<LogConfig>,
    pub statistics_poll_interval: u64,
    pub snippets: Option<String>,
    pub plugins: PluginConfig,
}

impl Config {
    /// The documented default for the statistics poll interval, in seconds.
    pub fn default_statistics_poll_interval() -> (r: u64)
        ensures
            r == 60,
    {
        60
    }
}

/// Why a snippet path does not name a snippet.
#[derive(Clone, Copy, PartialEq, Eq, Structural, Debug)]
pub enum SnippetNameError {
    /// The path has no file name.
    NoFileName,
    /// The file name ends in neither `.toml` nor `.toml.disabled`.
    WrongExtension,
}

/// The base name of a snippet path with its snippet extension removed.
pub open spec fn spec_basename_without_ext(path: Seq<char>) -> Result<Seq<char>, SnippetNameError> {
    let fname = match crate::events::find_ch(path.reverse(), '/') {
        Some(i) => path.skip(path.len() - i),
        None => path,
    };
    if fname.len() == 0 {
        Err(SnippetNameError::NoFileName)
    } else if fname.len() >= 14 && fname.skip(fname.len() - 14) == ".toml.disabled"@ {
        Ok(fname.take(fname.len() - 14))
    } else if fname.len() >= 5 && fname.skip(fname.len() - 5) == ".toml"@ {
        Ok(fname.take(fname.len() - 5))
    } else {
        Err(SnippetNameError::WrongExtension)
    }
}

/// The base name of a snippet file: the part after the last slash, with the
/// `.toml` or `.toml.disabled` extension removed; anything else is refused.
pub fn basename_without_ext(snippet_path: &str) -> (r: Result<String, SnippetNameError>)
    ensures
        match r {
            Ok(s) => spec_basename_without_ext(snippet_path@) == Ok::<Seq<char>, SnippetNameError>(
                s@,
            ),
            Err(e) => spec_basename_without_ext(snippet_path@) == Err::<Seq<char>, _>(e),
        },
{
    let len = snippet_path.unicode_len();
    proof {
        crate::events::lemma_find_ch(snippet_path@.reverse(), '/');
        assert(forall|j: int| 0 <= j < snippet_path@.len() ==> snippet_path@.reverse()[j]
            == snippet_path@[snippet_path@.len() - 1 - j]);
    }
    let fname = match rfind_char(snippet_path, '/') {
        Some(i) => {
            proof {
                let fi = crate::events::find_ch(snippet_path@.reverse(), '/');
                assert(snippet_path@.reverse()[snippet_path@.len() - 1 - i] == '/');
                assert(forall|j: int| 0 <= j < snippet_path@.len() - 1 - i
                    ==> snippet_path@.reverse()[j] == snippet_path@[snippet_path@.len() - 1 - j]
                    && snippet_path@[snippet_path@.len() - 1 - j] != '/');
                assert(fi is Some);
                assert(fi.unwrap() == snippet_path@.len() - 1 - i);
            }
            substring(snippet_path, i + 1, len)
        },
        None => {
            proof {
                if crate::events::find_ch(snippet_path@.reverse(), '/') is Some {
                    let ii = crate::events::find_ch(snippet_path@.reverse(), '/').unwrap();
                    assert(snippet_path@.reverse()[ii] == '/');
                }
            }
            str_to_string(snippet_path)
        },
    };
    let ghost fnamev = fname@;
    proof {
        match crate::events::find_ch(snippet_path@.reverse(), '/') {
            Some(i) => {
                assert(fnamev =~= snippet_path@.skip(snippet_path@.len() - i));
            },
            None => {
                assert(fnamev =~= snippet_path@);
            },
        }
    }
    let flen = fname.as_str().unicode_len();
    if flen == 0 {
        return Err(SnippetNameError::NoFileName);
    }
    proof {
        reveal_strlit(".toml.disabled");
        reveal_strlit(".toml");
    }
    if ends_with(fname.as_str(), ".toml.disabled") {
        proof {
            assert(fnamev.subrange(fnamev.len() - 14, fnamev.len() as int) =~= fnamev.skip(
                fnamev.len() - 14,
            ));
        }
        let base = substring(fname.as_str(), 0, flen - 14);
        proof {
            assert(base@ =~= fnamev.take(fnamev.len() - 14));
        }
        Ok(base)
    } else if ends_with(fname.as_str(), ".toml") {
        proof {
            if fnamev.len() >= 14 {
                assert(fnamev.subrange(fnamev.len() - 14, fnamev.len() as int) =~= fnamev.skip(
                    fnamev.len() - 14,
                ));
            }
            assert(fnamev.subrange(fnamev.len() - 5, fnamev.len() as int) =~= fnamev.skip(
                fnamev.len() - 5,
            ));
        }
        let base = substring(fname.as_str(), 0, flen - 5);
        proof {
            assert(base@ =~= fnamev.take(fnamev.len() - 5));
        }
        Ok(base)
    } else {
        proof {
            if fnamev.len() >= 14 {
                assert(fnamev.subrange(fnamev.len() - 14, fnamev.len() as int) =~= fnamev.skip(
                    fnamev.len() - 14,
                ));
            }
            if fnamev.len() >= 5 {
                assert(fnamev.subrange(fnamev.len() - 5, fnamev.len() as int) =~= fnamev.skip(
                    fnamev.len() - 5,
                ));
            }
        }
        Err(SnippetNameError::WrongExtension)
    }
}

/// Whether a path names a configuration snippet: it ends in the given
/// extension, a dot before it.
pub fn has_snippet_extension(path: &str, extension: &str) -> (r: bool)
    ensures
        r == (path@.len() >= extension@.len() + 1 && path@.subrange(
            path@.len() - extension@.len() - 1,
            path@.len() as int,
        ) == seq!['.'] + extension@),
{
    let mut dotted = str_to_string(".");
    dotted.append(extension);
    proof {
        reveal_strlit(".");
        assert(dotted@ =~= seq!['.'] + extension@);
    }
    ends_with(path, dotted.as_str())
}

} // verus!
