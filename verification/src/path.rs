//! The mapping of a URL to the relative path of the file that mirrors it.

use crate::escape_path::{
    escape_text, escape_text_can_be_read_back, escape_text_holds_no_separator, EscapePathExt,
};
use crate::link::{text_of, Link, LinkView};
use crate::text::chars_of;
use vstd::prelude::*;
use vstd::string::StringExecFns;

verus! {

/// The index of the last `/` in `text`, or `-1` where it holds none.
pub open spec fn last_slash(text: Seq<char>) -> int
    decreases text.len(),
{
    if text.len() == 0 {
        -1
    } else if text.last() == '/' {
        text.len() - 1
    } else {
        last_slash(text.drop_last())
    }
}

/// The name of the file that mirrors a directory-like URL.
pub open spec fn index_name() -> Seq<char> {
    "index.html"@
}

/// The name of the file that mirrors `link`: the last segment of its path,
/// or the index name where that segment is empty, followed by `?` and the
/// escaped query where the URL has a query. A URL whose path does not begin
/// with `/` has no segments and no file name.
pub open spec fn file_name(link: LinkView) -> Option<Seq<char>> {
    if link.path.len() == 0 || link.path[0] != '/' {
        None
    } else {
        let segment = link.path.skip(last_slash(link.path) + 1);
        let name = if segment.len() == 0 {
            index_name()
        } else {
            segment
        };
        match link.query {
            Some(query) => Some(name + seq!['?'] + escape_text(query)),
            None => Some(name),
        }
    }
}

/// The relative path of the file that mirrors `link`: the host, the path up
/// to and with its last `/`, and the file name. An opaque URL, one without a
/// host and one without a file name have none.
pub open spec fn local_path(link: LinkView) -> Option<Seq<char>> {
    if link.cannot_be_a_base {
        None
    } else {
        match (link.host, file_name(link)) {
            (Some(host), Some(name)) => Some(
                host + link.path.take(last_slash(link.path) + 1) + name,
            ),
            _ => None,
        }
    }
}

/// Behind the last `/` of a text there is no other.
pub proof fn no_slash_behind_the_last(text: Seq<char>)
    ensures
        -1 <= last_slash(text) < text.len(),
        last_slash(text) >= 0 ==> text[last_slash(text)] == '/',
        forall|i: int| last_slash(text) < i < text.len() ==> text[i] != '/',
    decreases text.len(),
{
    if text.len() > 0 && text.last() != '/' {
        no_slash_behind_the_last(text.drop_last());
        assert forall|i: int| last_slash(text) < i < text.len() implies text[i] != '/' by {
            if i < text.len() - 1 {
                assert(text[i] == text.drop_last()[i]);
            }
        }
    }
}

/// The file name of a URL holds no path separator, whatever its query
/// holds: the query adds no directory to the path and cannot lead out of the
/// directory of the page.
pub proof fn file_name_holds_no_separator(link: LinkView)
    requires
        file_name(link) is Some,
    ensures
        forall|i: int| 0 <= i < file_name(link)->0.len() ==> file_name(link)->0[i] != '/',
{
    reveal_strlit("index.html");
    no_slash_behind_the_last(link.path);
    match link.query {
        Some(query) => {
            escape_text_holds_no_separator(query);
        },
        None => {},
    }
}

/// The local path of a URL lies in the directory that its host and the
/// directories of its path name: it is that directory followed by the file
/// name, and the file name holds no path separator.
pub proof fn local_path_stays_in_its_directory(link: LinkView)
    requires
        local_path(link) is Some,
    ensures
        link.host is Some,
        file_name(link) is Some,
        local_path(link)->0 == link.host->0 + link.path.take(last_slash(link.path) + 1)
            + file_name(link)->0,
        link.path.take(last_slash(link.path) + 1).last() == '/',
        forall|i: int| 0 <= i < file_name(link)->0.len() ==> file_name(link)->0[i] != '/',
{
    file_name_holds_no_separator(link);
    no_slash_behind_the_last(link.path);
}

/// Two URLs that agree in all but the query are mirrored by different
/// files: no query takes the place of another, and none that of the page
/// without query.
pub proof fn queries_are_told_apart(one: LinkView, other: LinkView)
    requires
        one.host == other.host,
        one.path == other.path,
        one.cannot_be_a_base == other.cannot_be_a_base,
        one.query != other.query,
        local_path(one) is Some,
    ensures
        local_path(other) is Some,
        local_path(one) != local_path(other),
{
    let directory = one.host->0 + one.path.take(last_slash(one.path) + 1);
    let segment = one.path.skip(last_slash(one.path) + 1);
    let name = if segment.len() == 0 {
        index_name()
    } else {
        segment
    };
    let length = (directory.len() + name.len()) as int;
    if local_path(one) == local_path(other) {
        let path = local_path(one)->0;
        match (one.query, other.query) {
            (Some(first), Some(second)) => {
                assert(path == directory + (name + seq!['?'] + escape_text(first)));
                assert(path == directory + (name + seq!['?'] + escape_text(second)));
                assert(path.skip(length + 1) == escape_text(first));
                assert(path.skip(length + 1) == escape_text(second));
                escape_text_can_be_read_back(first, second);
            },
            (Some(first), None) => {
                assert(path == directory + (name + seq!['?'] + escape_text(first)));
                assert(path == directory + name);
                assert(path.len() == length);
            },
            (None, Some(second)) => {
                assert(path == directory + (name + seq!['?'] + escape_text(second)));
                assert(path == directory + name);
                assert(path.len() == length);
            },
            (None, None) => {},
        }
    }
}

/// The index behind the last `/` of `text`: where its last segment begins.
fn last_segment_start(text: &Vec<char>) -> (start: usize)
    ensures
        start == last_slash(text@) + 1,
        start <= text.len(),
{
    let mut end: usize = text.len();
    assert(text@.take(end as int) == text@);
    while end > 0 && text[end - 1] != '/'
        invariant
            end <= text.len(),
            last_slash(text@) == last_slash(text@.take(end as int)),
        decreases end,
    {
        assert(text@.take(end as int).drop_last() == text@.take(end - 1));
        end = end - 1;
    }
    end
}

/// Appends `chars[from..to]` to `out`.
fn push_range(out: &mut String, chars: &Vec<char>, from: usize, to: usize)
    requires
        from <= to <= chars.len(),
    ensures
        final(out)@ == old(out)@ + chars@.subrange(from as int, to as int),
{
    let mut i: usize = from;
    while i < to
        invariant
            from <= i <= to <= chars.len(),
            out@ == old(out)@ + chars@.subrange(from as int, i as int),
        decreases to - i,
    {
        out.push(chars[i]);
        i = i + 1;
        assert(chars@.subrange(from as int, i as int) == chars@.subrange(from as int, i - 1).push(
            chars@[i - 1],
        ));
    }
}

/// The name of the file that mirrors `url`.
pub fn merge_file_name_and_query(url: &Link) -> (name: Option<String>)
    ensures
        text_of(name) == file_name(url@),
{
    let path = chars_of(url.path.as_str());
    if path.len() == 0 || path[0] != '/' {
        return None;
    }
    let start = last_segment_start(&path);
    let mut name = String::new();
    if start == path.len() {
        let index = chars_of("index.html");
        push_range(&mut name, &index, 0, index.len());
        assert(name@ == index_name()) by {
            assert(index@.subrange(0, index.len() as int) == index@);
        }
    } else {
        push_range(&mut name, &path, start, path.len());
        assert(name@ == path@.skip(start as int));
    }
    match &url.query {
        Some(query) => {
            let ghost plain = name@;
            name.push('?');
            assert(name@ == plain + seq!['?']);
            query.escape_path().append_to(&mut name);
        },
        None => {},
    }
    Some(name)
}

/// The relative path of the file that mirrors `url`.
pub fn url_to_path(url: &Link) -> (path: Option<String>)
    ensures
        text_of(path) == local_path(url@),
{
    if url.cannot_be_a_base {
        return None;
    }
    let host = match &url.host {
        Some(host) => host,
        None => {
            return None;
        },
    };
    let name = match merge_file_name_and_query(url) {
        Some(name) => name,
        None => {
            return None;
        },
    };
    let path = chars_of(url.path.as_str());
    let mut local = host.clone();
    push_range(&mut local, &path, 0, last_segment_start(&path));
    local.append(name.as_str());
    assert(path@.subrange(0, last_slash(path@) + 1) == path@.take(last_slash(path@) + 1));
    Some(local)
}

} // verus!
