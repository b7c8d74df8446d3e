//! The application's configuration values.
//!
//! Loading and saving the file live with the host; this module holds the
//! values and the rules for their defaults.
use vstd::prelude::*;

use crate::text::{chars_of, string_from_chars};

verus! {

/// The persisted settings: where the notes live, which editor opens
/// them, and the optional git synchronisation parameters.
#[derive(Debug, Clone, PartialEq)]
pub struct Config {
    pub root_directory: String,
    pub editor: String,
    pub git_enabled: bool,
    pub git_repository: Option<String>,
    pub git_username: Option<String>,
    pub git_email: Option<String>,
}

impl Config {
    /// The fresh configuration for a user whose home directory is given:
    /// notes under an `rnotes` directory in it, `vim` as the editor, git
    /// off.
    pub fn default_with_home(home: &str) -> (c: Config)
        ensures
            c.root_directory@ == home@ + seq!['/', 'r', 'n', 'o', 't', 'e', 's'],
            c.editor@ == seq!['v', 'i', 'm'],
            !c.git_enabled,
            c.git_repository is None,
            c.git_username is None,
            c.git_email is None,
    {
        let mut root = chars_of(home);
        root.push('/');
        root.push('r');
        root.push('n');
        root.push('o');
        root.push('t');
        root.push('e');
        root.push('s');
        proof {
            assert(root@ =~= home@ + seq!['/', 'r', 'n', 'o', 't', 'e', 's']);
        }
        let mut editor: Vec<char> = Vec::new();
        editor.push('v');
        editor.push('i');
        editor.push('m');
        proof {
            assert(editor@ =~= seq!['v', 'i', 'm']);
        }
        Config {
            root_directory: string_from_chars(&root),
            editor: string_from_chars(&editor),
            git_enabled: false,
            git_repository: None,
            git_username: None,
            git_email: None,
        }
    }
}

} // verus!
