//! Addresses of the form `http://host:port/path?searchpart`.

use vstd::prelude::*;

use crate::error::Error;
use crate::text::{chars_of, string_of};

verus! {

/// An address, and the parts it is made of once it is taken apart.
#[derive(Debug, PartialEq, Eq)]
pub struct Url {
    url: String,
    host: String,
    port: String,
    path: String,
    searchpart: String,
}

/// What a [`Url`] holds.
pub struct UrlView {
    pub url: Seq<char>,
    pub host: Seq<char>,
    pub port: Seq<char>,
    pub path: Seq<char>,
    pub searchpart: Seq<char>,
}

impl View for Url {
    type V = UrlView;

    closed spec fn view(&self) -> UrlView {
        UrlView {
            url: self.url@,
            host: self.host@,
            port: self.port@,
            path: self.path@,
            searchpart: self.searchpart@,
        }
    }
}

/// The index of the first `c` in `s` from `from` on, or the length of `s`.
pub open spec fn first_from(s: Seq<char>, c: char, from: int) -> int
    decreases s.len() - from,
{
    if 0 <= from < s.len() && s[from] != c {
        first_from(s, c, from + 1)
    } else {
        from
    }
}

/// What stands before the first `c` in `s`: all of `s` where there is none.
pub open spec fn before(s: Seq<char>, c: char) -> Seq<char> {
    s.take(first_from(s, c, 0))
}

/// What stands after the first `c` in `s`, if there is one.
pub open spec fn after(s: Seq<char>, c: char) -> Option<Seq<char>> {
    if first_from(s, c, 0) < s.len() {
        Some(s.skip(first_from(s, c, 0) + 1))
    } else {
        None
    }
}

/// `s`, or nothing where there is none.
pub open spec fn or_empty(s: Option<Seq<char>>) -> Seq<char> {
    match s {
        Some(s) => s,
        None => Seq::empty(),
    }
}

/// Whether an address begins with `http://`.
pub open spec fn is_http(url: Seq<char>) -> bool {
    url.len() >= 7 && url.take(7) == "http://"@
}

/// An address taken apart. After `http://` comes the host, up to a colon or
/// a slash; after a colon the port, which is 80 where none is written;
/// after the first slash the path, up to a question mark; and after that
/// the search part.
pub open spec fn parsed(url: Seq<char>) -> Option<UrlView> {
    if is_http(url) {
        let rest = url.skip(7);
        let authority = before(rest, '/');
        let tail = or_empty(after(rest, '/'));
        Some(
            UrlView {
                url,
                host: before(authority, ':'),
                port: match after(authority, ':') {
                    Some(port) => port,
                    None => "80"@,
                },
                path: before(tail, '?'),
                searchpart: or_empty(after(tail, '?')),
            },
        )
    } else {
        None
    }
}

/// The index of the first `c` in `s`: see [`first_from`].
fn find(s: &Vec<char>, c: char) -> (i: usize)
    ensures
        i == first_from(s@, c, 0),
        i <= s.len(),
{
    let mut i: usize = 0;
    while i < s.len() && s[i] != c
        invariant
            i <= s.len(),
            first_from(s@, c, i as int) == first_from(s@, c, 0),
        decreases s.len() - i,
    {
        i += 1;
    }
    i
}

/// The characters `s[from..to]`.
fn part(s: &Vec<char>, from: usize, to: usize) -> (r: Vec<char>)
    requires
        from <= to <= s.len(),
    ensures
        r@ == s@.subrange(from as int, to as int),
{
    let mut r: Vec<char> = Vec::new();
    let mut i: usize = from;
    while i < to
        invariant
            from <= i <= to <= s.len(),
            r@ == s@.subrange(from as int, i as int),
        decreases to - i,
    {
        r.push(s[i]);
        i += 1;
        assert(s@.subrange(from as int, i as int) == s@.subrange(from as int, i - 1).push(
            s@[i - 1],
        ));
    }
    r
}

/// What stands before and after the first `c` in `s`: see [`before`] and
/// [`after`].
fn split(s: &Vec<char>, c: char) -> (r: (Vec<char>, Option<Vec<char>>))
    ensures
        r.0@ == before(s@, c),
        match r.1 {
            Some(rest) => after(s@, c) == Some(rest@),
            None => after(s@, c) is None,
        },
{
    let i = find(s, c);
    let head = part(s, 0, i);
    if i < s.len() {
        (head, Some(part(s, i + 1, s.len())))
    } else {
        (head, None)
    }
}

fn text_of(s: &Vec<char>) -> (r: String)
    ensures
        r@ == s@,
{
    let r = string_of(s, 0, s.len());
    assert(s@.subrange(0, s@.len() as int) =~= s@);
    r
}

impl Clone for Url {
    fn clone(&self) -> (res: Self)
        ensures
            res@ == self@,
    {
        Url {
            url: self.url.clone(),
            host: self.host.clone(),
            port: self.port.clone(),
            path: self.path.clone(),
            searchpart: self.searchpart.clone(),
        }
    }
}

impl Url {
    /// The address `url`, not yet taken apart: every part is empty.
    pub fn new(url: String) -> (u: Self)
        ensures
            u@ == (UrlView {
                url: url@,
                host: Seq::empty(),
                port: Seq::empty(),
                path: Seq::empty(),
                searchpart: Seq::empty(),
            }),
    {
        Url {
            url,
            host: String::new(),
            port: String::new(),
            path: String::new(),
            searchpart: String::new(),
        }
    }

    /// Takes the address apart: see [`parsed`]. An address that does not
    /// begin with `http://` is refused and left as it was.
    pub fn parse(&mut self) -> (r: Result<Url, Error>)
        ensures
            match r {
                Ok(url) => parsed(old(self)@.url) == Some(url@) && final(self)@ == url@,
                Err(e) => e == Error::UnexpectedInput && parsed(old(self)@.url) is None
                    && final(self)@ == old(self)@,
            },
    {
        let chars = chars_of(self.url.as_str());
        if chars.len() < 7 {
            return Err(Error::UnexpectedInput);
        }
        let scheme = text_of(&part(&chars, 0, 7));
        if !crate::text::equals(scheme.as_str(), "http://") {
            return Err(Error::UnexpectedInput);
        }
        let rest = part(&chars, 7, chars.len());
        let (authority, tail) = split(&rest, '/');
        let (host, port) = split(&authority, ':');
        let tail = match tail {
            Some(tail) => tail,
            None => Vec::new(),
        };
        let (path, searchpart) = split(&tail, '?');
        self.host = text_of(&host);
        self.port = match port {
            Some(port) => text_of(&port),
            None => String::from_str("80"),
        };
        self.path = text_of(&path);
        self.searchpart = match searchpart {
            Some(searchpart) => text_of(&searchpart),
            None => String::new(),
        };
        Ok(self.clone())
    }

    pub fn host(&self) -> (s: String)
        ensures
            s@ == self@.host,
    {
        self.host.clone()
    }

    pub fn port(&self) -> (s: String)
        ensures
            s@ == self@.port,
    {
        self.port.clone()
    }

    pub fn path(&self) -> (s: String)
        ensures
            s@ == self@.path,
    {
        self.path.clone()
    }

    pub fn searchpart(&self) -> (s: String)
        ensures
            s@ == self@.searchpart,
    {
        self.searchpart.clone()
    }
}

} // verus!
