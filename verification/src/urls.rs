//! The addresses of an instance and of the endpoints below its actuator.

use crate::text::{chars_of, find_char, find_text, joined};
use crate::text::{contains_text, first_at, next_char, next_char_is_first, occurs_at};
use vstd::prelude::*;
use vstd::string::*;

verus! {

/// The first position of `needle` in `text`.
pub open spec fn position_of(text: Seq<char>, needle: Seq<char>) -> int {
    choose|i: int| first_at(text, needle, i)
}

/// The scheme and the host of an address: all of it up to the first slash behind `://`. A text
/// without `://` is its own origin.
pub open spec fn origin(url: Seq<char>) -> Seq<char> {
    if contains_text(url, "://"@) {
        url.take(next_char(url, '/', position_of(url, "://"@) + 3))
    } else {
        url
    }
}

/// The path of an address: all of it from the third slash on, or nothing.
pub open spec fn context_path(url: Seq<char>) -> Seq<char> {
    let first = next_char(url, '/', 0);
    let second = next_char(url, '/', first + 1);
    let third = next_char(url, '/', second + 1);
    url.skip(third)
}

/// A text without the slashes at its end.
pub open spec fn without_last_slashes(text: Seq<char>) -> Seq<char>
    decreases text.len(),
{
    if text.len() > 0 && text.last() == '/' {
        without_last_slashes(text.drop_last())
    } else {
        text
    }
}

/// A text without the slashes at its beginning.
pub open spec fn without_first_slashes(text: Seq<char>) -> Seq<char>
    decreases text.len(),
{
    if text.len() > 0 && text[0] == '/' {
        without_first_slashes(text.drop_first())
    } else {
        text
    }
}

/// A text without the slashes at its beginning does not begin with one.
pub proof fn nothing_before_the_first_part(text: Seq<char>)
    ensures
        without_first_slashes(text).len() > 0 ==> without_first_slashes(text)[0] != '/',
    decreases text.len(),
{
    if text.len() > 0 && text[0] == '/' {
        nothing_before_the_first_part(text.drop_first());
    }
}

/// The address below an actuator that a proxied call goes to.
pub open spec fn upstream_url(
    base_url: Seq<char>,
    path: Seq<char>,
    query: Option<Seq<char>>,
) -> Seq<char> {
    base_url + "/"@ + without_last_slashes(path) + match query {
        Some(query) => "?"@ + query,
        None => Seq::empty(),
    }
}

/// A text has one first position at most.
proof fn first_position_is_unique(text: Seq<char>, needle: Seq<char>, i: int, j: int)
    requires
        first_at(text, needle, i),
        first_at(text, needle, j),
    ensures
        i == j,
{
}

/// Where a text contains another, there is a first position.
proof fn first_position_exists(text: Seq<char>, needle: Seq<char>, i: int)
    requires
        occurs_at(text, needle, i),
    ensures
        exists|j: int| first_at(text, needle, j),
    decreases i,
{
    if !first_at(text, needle, i) {
        let j = choose|j: int| 0 <= j < i && occurs_at(text, needle, j);
        first_position_exists(text, needle, j);
    }
}

/// The scheme and the host of an address.
pub fn origin_of(url: &str) -> (found: String)
    ensures
        found@ == origin(url@),
{
    match find_text(url, "://") {
        Some(at) => {
            proof {
                reveal_strlit("://");
                first_position_is_unique(url@, "://"@, at as int, position_of(url@, "://"@));
            }
            let chars = chars_of(url);
            assert(at + 3 <= chars.len());
            let end = find_char(&chars, '/', at + 3);
            url.substring_char(0, end).to_owned()
        },
        None => url.to_owned(),
    }
}

/// The path of an address.
pub fn context_path_of(url: &str) -> (path: String)
    ensures
        path@ == context_path(url@),
{
    let chars = chars_of(url);
    let n = chars.len();
    let first = find_char(&chars, '/', 0);
    if first == n {
        assert(url@.skip(n as int) =~= Seq::empty());
        return String::new();
    }
    let second = find_char(&chars, '/', first + 1);
    if second == n {
        assert(url@.skip(n as int) =~= Seq::empty());
        return String::new();
    }
    let third = find_char(&chars, '/', second + 1);
    url.substring_char(third, n).to_owned()
}

/// A text without the slashes at its end.
pub fn trim_last_slashes(text: &str) -> (trimmed: &str)
    ensures
        trimmed@ == without_last_slashes(text@),
{
    let chars = chars_of(text);
    let mut n: usize = chars.len();
    assert(text@.take(n as int) =~= text@);
    while n > 0 && chars[n - 1] == '/'
        invariant
            chars@ == text@,
            n <= chars.len(),
            without_last_slashes(text@) == without_last_slashes(text@.take(n as int)),
        decreases n,
    {
        assert(text@.take(n as int).drop_last() =~= text@.take(n - 1));
        n = n - 1;
    }
    assert(text@.subrange(0, n as int) =~= text@.take(n as int));
    text.substring_char(0, n)
}

/// A text without the slashes at its beginning.
pub fn trim_first_slashes(text: &str) -> (trimmed: &str)
    ensures
        trimmed@ == without_first_slashes(text@),
{
    let chars = chars_of(text);
    let mut n: usize = 0;
    assert(text@.skip(0) =~= text@);
    while n < chars.len() && chars[n] == '/'
        invariant
            chars@ == text@,
            n <= chars.len(),
            without_first_slashes(text@) == without_first_slashes(text@.skip(n as int)),
        decreases chars.len() - n,
    {
        assert(text@.skip(n as int).drop_first() =~= text@.skip(n + 1));
        n = n + 1;
    }
    assert(text@.subrange(n as int, text@.len() as int) =~= text@.skip(n as int));
    text.substring_char(n, chars.len())
}

/// The address that a proxied call goes to.
pub fn upstream_url_of(base_url: &str, path: &str, query: Option<&str>) -> (url: String)
    ensures
        url@ == upstream_url(base_url@, path@, crate::config::optional_str(query)),
{
    let mut url = joined(base_url, "/");
    url.append(trim_last_slashes(path));
    match query {
        Some(query) => {
            let tail = joined("?", query);
            url.append(tail.as_str());
        },
        None => {},
    }
    url
}

/// A slash at the end of a path makes no difference to where a proxied call goes.
pub proof fn last_slash_does_not_matter(
    base_url: Seq<char>,
    path: Seq<char>,
    query: Option<Seq<char>>,
)
    ensures
        upstream_url(base_url, path.push('/'), query) == upstream_url(base_url, path, query),
{
    assert(path.push('/').drop_last() =~= path);
}

/// The origin and the path of an address make up the address, where no slash stands before its
/// `://`.
pub proof fn origin_and_path_make_the_address(url: Seq<char>)
    requires
        contains_text(url, "://"@),
        forall|i: int| 0 <= i < position_of(url, "://"@) ==> url[i] != '/',
    ensures
        origin(url) + context_path(url) == url,
{
    reveal_strlit("://");
    let mark = "://"@;
    let i = choose|i: int| occurs_at(url, mark, i);
    first_position_exists(url, mark, i);
    let at = position_of(url, mark);
    assert(first_at(url, mark, at));
    assert(url.subrange(at, at + 3)[0] == url[at]);
    assert(url.subrange(at, at + 3)[1] == url[at + 1]);
    assert(url.subrange(at, at + 3)[2] == url[at + 2]);
    let first = next_char(url, '/', 0);
    next_char_is_first(url, '/', 0);
    assert(first == at + 1);
    let second = next_char(url, '/', first + 1);
    next_char_is_first(url, '/', first + 1);
    assert(second == at + 2);
    next_char_is_first(url, '/', at + 3);
    assert(origin(url) + context_path(url) =~= url);
}

/// The origin of an address is its scheme and its host: what follows from the first slash behind
/// them on is left out. A text without `://` is its own origin.
pub proof fn origin_is_scheme_and_host(scheme: Seq<char>, host: Seq<char>, rest: Seq<char>)
    requires
        !contains_text(scheme + ":/"@, "://"@),
        !host.contains('/'),
        rest.len() > 0 ==> rest[0] == '/',
    ensures
        origin(scheme + "://"@ + host + rest) == scheme + "://"@ + host,
        !contains_text(host, "://"@) ==> origin(host) == host,
{
    reveal_strlit("://");
    reveal_strlit(":/");
    let mark = "://"@;
    let url = scheme + mark + host + rest;
    let at = scheme.len() as int;
    assert(url.subrange(at, at + 3) =~= mark);
    assert(occurs_at(url, mark, at));
    let begin = scheme + ":/"@;
    assert forall|j: int| 0 <= j < at implies !occurs_at(url, mark, j) by {
        if occurs_at(url, mark, j) {
            assert(begin.subrange(j, j + 3) =~= url.subrange(j, j + 3));
            assert(occurs_at(begin, mark, j));
        }
    }
    assert(first_at(url, mark, at));
    first_position_is_unique(url, mark, at, position_of(url, mark));
    let end = at + 3 + host.len();
    let found = next_char(url, '/', at + 3);
    next_char_is_first(url, '/', at + 3);
    if found < end {
        assert(url[found] == host[found - at - 3]);
        assert(host.contains('/'));
    }
    if found > end {
        assert(url[end as int] == rest[0]);
    }
    assert(origin(url) =~= scheme + mark + host);
}

/// The path of an address begins with its third slash.
pub proof fn path_begins_with_the_third_slash(
    a: Seq<char>,
    b: Seq<char>,
    c: Seq<char>,
    rest: Seq<char>,
)
    requires
        !a.contains('/'),
        !b.contains('/'),
        !c.contains('/'),
    ensures
        context_path(a + "/"@ + b + "/"@ + c + "/"@ + rest) == "/"@ + rest,
        context_path(a + "/"@ + b + "/"@ + c) == Seq::<char>::empty(),
        context_path(a + "/"@ + b) == Seq::<char>::empty(),
        context_path(a) == Seq::<char>::empty(),
{
    reveal_strlit("/");
    let slash = "/"@;
    assert(slash =~= seq!['/']);
    let second = a.len() as int + 1;
    let third = second + b.len() + 1;
    let full = a + slash + b + slash + c + slash + rest;
    part_ends_at_a_slash(full, a, 0);
    part_ends_at_a_slash(full, b, second);
    part_ends_at_a_slash(full, c, third);
    assert(full.skip(third + c.len()) =~= slash + rest);
    let three = a + slash + b + slash + c;
    part_ends_at_a_slash(three, a, 0);
    part_ends_at_a_slash(three, b, second);
    part_ends_at_a_slash(three, c, third);
    assert(three.skip(three.len() as int) =~= Seq::empty());
    let two = a + slash + b;
    part_ends_at_a_slash(two, a, 0);
    part_ends_at_a_slash(two, b, second);
    assert(two.skip(two.len() as int) =~= Seq::empty());
    part_ends_at_a_slash(a, a, 0);
    assert(a.skip(a.len() as int) =~= Seq::empty());
}

/// A part without slashes ends at the next slash, or where the text ends.
proof fn part_ends_at_a_slash(text: Seq<char>, part: Seq<char>, from: int)
    requires
        !part.contains('/'),
        0 <= from,
        from + part.len() <= text.len(),
        forall|i: int| 0 <= i < part.len() ==> text[from + i] == #[trigger] part[i],
        from + part.len() < text.len() ==> text[from + part.len()] == '/',
    ensures
        next_char(text, '/', from) == from + part.len(),
{
    next_char_is_first(text, '/', from);
    let found = next_char(text, '/', from);
    if found < from + part.len() {
        assert(text[from + (found - from)] == part[found - from]);
        assert(part.contains('/'));
    }
}

/// Slashes are trimmed from the beginning of a text, all of them and nothing else.
pub proof fn first_slashes_are_trimmed(slashes: Seq<char>, text: Seq<char>)
    requires
        forall|i: int| 0 <= i < slashes.len() ==> (#[trigger] slashes[i]) == '/',
        text.len() > 0 ==> text[0] != '/',
    ensures
        without_first_slashes(slashes + text) == text,
    decreases slashes.len(),
{
    if slashes.len() == 0 {
        assert(slashes + text =~= text);
    } else {
        assert((slashes + text)[0] == slashes[0]);
        assert((slashes + text).drop_first() =~= slashes.drop_first() + text);
        assert forall|i: int| 0 <= i < slashes.drop_first().len() implies (
        #[trigger] slashes.drop_first()[i]) == '/' by {
            assert(slashes[i + 1] == '/');
        }
        first_slashes_are_trimmed(slashes.drop_first(), text);
    }
}

/// Slashes are trimmed from the end of a text, all of them and nothing else.
pub proof fn last_slashes_are_trimmed(text: Seq<char>, slashes: Seq<char>)
    requires
        forall|i: int| 0 <= i < slashes.len() ==> (#[trigger] slashes[i]) == '/',
        text.len() > 0 ==> text.last() != '/',
    ensures
        without_last_slashes(text + slashes) == text,
    decreases slashes.len(),
{
    if slashes.len() == 0 {
        assert(text + slashes =~= text);
    } else {
        assert((text + slashes).last() == slashes[slashes.len() - 1]);
        assert((text + slashes).drop_last() =~= text + slashes.drop_last());
        assert forall|i: int| 0 <= i < slashes.drop_last().len() implies (
        #[trigger] slashes.drop_last()[i]) == '/' by {
            assert(slashes[i] == '/');
        }
        last_slashes_are_trimmed(text, slashes.drop_last());
    }
}

/// A proxied call goes to the path below the configured address, without the slashes at its end,
/// and with the query as it is.
pub proof fn proxied_call_goes_below_the_address(
    base_url: Seq<char>,
    path: Seq<char>,
    slashes: Seq<char>,
    query: Seq<char>,
)
    requires
        forall|i: int| 0 <= i < slashes.len() ==> (#[trigger] slashes[i]) == '/',
        path.len() > 0 ==> path.last() != '/',
    ensures
        upstream_url(base_url, path + slashes, None) == base_url + "/"@ + path,
        upstream_url(base_url, path + slashes, Some(query)) == base_url + "/"@ + path + "?"@
            + query,
{
    last_slashes_are_trimmed(path, slashes);
    assert(upstream_url(base_url, path + slashes, None) =~= base_url + "/"@ + path);
    assert(upstream_url(base_url, path + slashes, Some(query)) =~= base_url + "/"@ + path + "?"@
        + query);
}

} // verus!
