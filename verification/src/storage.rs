//! Where AgentBar keeps its files: the `.agent-bar` directory in the home
//! directory.
use vstd::prelude::*;

verus! {

/// The data directory under `home`, joined as a path joins a relative name:
/// the platform's `separator` goes between them unless `home` is empty or
/// already ends in a separator (`/` counts as one on every platform).
pub open spec fn data_dir_of(home: Seq<char>, separator: char) -> Seq<char> {
    if home.len() == 0 || home.last() == '/' || home.last() == separator {
        home + ".agent-bar"@
    } else {
        home + seq![separator] + ".agent-bar"@
    }
}

pub fn data_dir(home: &str, separator: char) -> (dir: String)
    ensures
        dir@ == data_dir_of(home@, separator),
{
    let mut dir = String::from_str(home);
    let v = crate::codex_config::chars_of(home);
    let separated = v.len() == 0 || v[v.len() - 1] == '/' || v[v.len() - 1] == separator;
    if !separated {
        crate::text::push_char(&mut dir, separator);
    }
    dir.append(".agent-bar");
    dir
}

} // verus!
