//! What the file server answers, once it knows what stands at a path.

use vstd::prelude::*;
use vstd::string::StringExecFns;

verus! {

/// What stands at a path that was asked for.
#[derive(Clone, Copy, Debug, PartialEq, Eq, Structural)]
pub enum Target {
    /// Nothing.
    Missing,
    /// A file, whose content is the answer.
    File,
    /// Anything else, which is listed as a directory.
    Directory,
}

/// What stands at a path, given whether anything does and whether it is a
/// file.
pub open spec fn target_of(present: bool, is_file: bool) -> Target {
    if !present {
        Target::Missing
    } else if is_file {
        Target::File
    } else {
        Target::Directory
    }
}

/// What stands at a path, given whether anything does and whether it is a
/// file.
pub fn target(present: bool, is_file: bool) -> (t: Target)
    ensures
        t == target_of(present, is_file),
{
    if !present {
        Target::Missing
    } else if is_file {
        Target::File
    } else {
        Target::Directory
    }
}

/// The line of a listing for the entry `name`: a link to it, with a slash
/// behind the name of a directory.
pub open spec fn entry_line(name: Seq<char>, is_dir: bool) -> Seq<char> {
    if is_dir {
        "<li><a href=\""@ + name + "/\">"@ + name + "/</a></li>"@
    } else {
        "<li><a href=\""@ + name + "\">"@ + name + "</a></li>"@
    }
}

/// The lines of a listing, one after the other in the order of the entries.
pub open spec fn entry_lines(entries: Seq<(Seq<char>, bool)>) -> Seq<char>
    decreases entries.len(),
{
    if entries.len() == 0 {
        Seq::empty()
    } else {
        entry_lines(entries.drop_last()) + entry_line(entries.last().0, entries.last().1)
    }
}

/// The page that lists a directory.
pub open spec fn listing(entries: Seq<(Seq<char>, bool)>) -> Seq<char> {
    "<html><body><ul>"@ + entry_lines(entries) + "</ul></body></html>"@
}

/// The entries of a directory, each as the characters of its name and
/// whether it is a directory itself.
pub open spec fn entries_view(entries: &[(String, bool)]) -> Seq<(Seq<char>, bool)> {
    entries@.map_values(|e: (String, bool)| (e.0@, e.1))
}

/// The page that lists the entries of a directory.
pub fn directory_listing(entries: &[(String, bool)]) -> (page: String)
    ensures
        page@ == listing(entries_view(entries)),
{
    let mut page = String::from_str("<html><body><ul>");
    let mut i: usize = 0;
    while i < entries.len()
        invariant
            i <= entries@.len(),
            page@ == "<html><body><ul>"@ + entry_lines(entries_view(entries).subrange(0, i as int)),
        decreases entries@.len() - i,
    {
        let ghost before = entries_view(entries).subrange(0, i as int);
        let ghost after = entries_view(entries).subrange(0, i + 1);
        let ghost so_far = page@;
        let name = entries[i].0.as_str();
        page.append("<li><a href=\"");
        page.append(name);
        if entries[i].1 {
            page.append("/\">");
            page.append(name);
            page.append("/</a></li>");
        } else {
            page.append("\">");
            page.append(name);
            page.append("</a></li>");
        }
        proof {
            assert(after.drop_last() =~= before);
            assert(after.last() == (name@, entries@[i as int].1));
            assert(page@ =~= so_far + entry_line(name@, entries@[i as int].1));
            assert(page@ =~= "<html><body><ul>"@ + entry_lines(after));
        }
        i += 1;
    }
    assert(entries_view(entries).subrange(0, i as int) =~= entries_view(entries));
    page.append("</ul></body></html>");
    page
}

} // verus!
