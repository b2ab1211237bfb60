mod content_type;
mod encoding;

pub use content_type::ContentType;
pub use encoding::Encoding;

use vstd::prelude::*;

use vstd::utf8::encode_utf8;

use crate::params::{insert_entry, keys_distinct, lookup, Entries, Params};
use crate::text::{copy_str, str_eq, to_lower, trim, trim_lower, trimmed};

verus! {

/// The key under which a header name is stored: trimmed and in ASCII lower case.
pub open spec fn header_key(name: Seq<char>) -> Seq<char> {
    to_lower(trim(name))
}

/// One header as it is written: `name: value` and a line break.
pub open spec fn header_line(k: Seq<char>, v: Seq<char>) -> Seq<char> {
    k + ": "@ + v + "\r\n"@
}

/// The bytes of all headers, one line each, in the order of the entries.
pub open spec fn entries_bytes(s: Entries) -> Seq<u8>
    decreases s.len(),
{
    if s.len() == 0 {
        Seq::empty()
    } else {
        entries_bytes(s.drop_last()) + encode_utf8(header_line(s.last().0, s.last().1))
    }
}

/// The lines of a table, `key: value\r\n` each, in the order of its entries.
pub fn table_bytes(table: &Params) -> (r: Vec<u8>)
    ensures
        r@ == entries_bytes(table@),
{
    let mut out: Vec<u8> = Vec::new();
    let n = table.len();
    let mut i: usize = 0;
    while i < n
        invariant
            n == table@.len(),
            i <= n,
            out@ == entries_bytes(table@.take(i as int)),
        decreases n - i,
    {
        let (k, v) = table.entry(i);
        let mut line = copy_str(k);
        line.append(": ");
        line.append(v);
        line.append("\r\n");
        let bytes = line.as_str().as_bytes();
        let ghost before = out@;
        let mut j: usize = 0;
        while j < bytes.len()
            invariant
                j <= bytes@.len(),
                out@ == before + bytes@.take(j as int),
            decreases bytes.len() - j,
        {
            out.push(bytes[j]);
            assert(bytes@.take(j + 1) == bytes@.take(j as int).push(bytes@[j as int]));
            j += 1;
        }
        assert(bytes@.take(bytes@.len() as int) == bytes@);
        assert(table@.take(i + 1).drop_last() == table@.take(i as int));
        assert(table@.take(i + 1).last() == table@[i as int]);
        i += 1;
    }
    assert(table@.take(n as int) == table@);
    out
}


/// After a header is set, reading it back under any name with the same key (same name up
/// to surrounding white space and ASCII case) gives the trimmed value; every other header
/// reads as before.
pub proof fn lemma_get_after_insert(h: Entries, k: Seq<char>, v: Seq<char>, name: Seq<char>)
    requires
        keys_distinct(h),
    ensures
        header_key(name) == header_key(k) ==> lookup(
            insert_entry(h, header_key(k), trim(v)),
            header_key(name),
        ) == Some(trim(v)),
        header_key(name) != header_key(k) ==> lookup(
            insert_entry(h, header_key(k), trim(v)),
            header_key(name),
        ) == lookup(h, header_key(name)),
        keys_distinct(insert_entry(h, header_key(k), trim(v))),
{
    crate::params::lemma_lookup_insert(h, header_key(k), trim(v), header_key(name));
    crate::params::lemma_insert_distinct(h, header_key(k), trim(v));
}

/// Setting a header whose key is already in normal form (as `set_content_type`,
/// `set_content_encoding` and `Response::finalize` do): reading it back under any name
/// with that key gives the new value, and every other header reads as before.
pub proof fn lemma_get_after_set(h: Entries, key: Seq<char>, v: Seq<char>, name: Seq<char>)
    requires
        keys_distinct(h),
    ensures
        lookup(insert_entry(h, key, v), header_key(name)) == if header_key(name) == key {
            Some(v)
        } else {
            lookup(h, header_key(name))
        },
        keys_distinct(insert_entry(h, key, v)),
{
    crate::params::lemma_lookup_insert(h, key, v, header_key(name));
    crate::params::lemma_insert_distinct(h, key, v);
}

/// Setting a header adds one line when the header was absent, and replaces its line in
/// place when it was present.
pub proof fn lemma_insert_line_count(h: Entries, key: Seq<char>, v: Seq<char>)
    requires
        keys_distinct(h),
    ensures
        lookup(h, key) is None ==> insert_entry(h, key, v).len() == h.len() + 1,
        lookup(h, key) is Some ==> insert_entry(h, key, v).len() == h.len(),
{
}

/// Setting a header to the value it was just set to changes nothing.
pub proof fn lemma_set_twice(h: Entries, key: Seq<char>, v: Seq<char>)
    requires
        keys_distinct(h),
    ensures
        insert_entry(insert_entry(h, key, v), key, v) == insert_entry(h, key, v),
{
    let t = insert_entry(h, key, v);
    crate::params::lemma_insert_distinct(h, key, v);
    let p = if crate::params::has_key(h, key) {
        crate::params::key_index(h, key)
    } else {
        h.len() as int
    };
    assert(t[p] == (key, v));
    crate::params::lemma_key_index(t, key, p);
    assert(t.update(p, (key, v)) =~= t);
}

/// After `set_content_type(c)`, `content_type()` reads back `c`.
pub proof fn lemma_content_type_round_trip(h: Entries, c: ContentType)
    requires
        keys_distinct(h),
    ensures
        lookup(insert_entry(h, "content-type"@, c.name()), "content-type"@) == Some(c.name()),
        ContentType::from_name(c.name()) == Some(c),
{
    crate::params::lemma_lookup_insert(h, "content-type"@, c.name(), "content-type"@);
    ContentType::lemma_name_round_trip(c);
}

/// The headers of a request or a response, keyed by lower-case name.
#[derive(Debug)]
pub struct Headers {
    entries: Params,
}

impl View for Headers {
    type V = Entries;

    closed spec fn view(&self) -> Entries {
        self.entries@
    }
}

impl Headers {
    /// No headers.
    pub fn new() -> (h: Headers)
        ensures
            h@ == Seq::<(Seq<char>, Seq<char>)>::empty(),
            keys_distinct(h@),
    {
        Headers { entries: Params::new() }
    }

    /// The value of the header `name`; the name is trimmed and compared in lower case.
    pub fn get(&self, name: &str) -> (r: Option<&str>)
        ensures
            r matches Some(v) ==> lookup(self@, header_key(name@)) == Some(v@),
            r is None ==> lookup(self@, header_key(name@)) is None,
            keys_distinct(self@),
    {
        let key = trim_lower(name);
        self.entries.get(key.as_str())
    }

    /// Sets the header `k` to `v`, both trimmed, the name in lower case.
    pub fn insert(&mut self, k: &str, v: &str)
        ensures
            final(self)@ == insert_entry(old(self)@, header_key(k@), trim(v@)),
            keys_distinct(final(self)@),
    {
        let key = trim_lower(k);
        let val = trimmed(v);
        self.entries.insert(key, val);
    }

    /// The value stored under a key that is already in normal form.
    pub(crate) fn lookup_key(&self, key: &str) -> (r: Option<&str>)
        ensures
            r matches Some(v) ==> lookup(self@, key@) == Some(v@),
            r is None ==> lookup(self@, key@) is None,
            keys_distinct(self@),
    {
        self.entries.get(key)
    }

    /// Stores `v` under a key that is already in normal form.
    pub(crate) fn insert_normalized(&mut self, key: &str, v: String)
        ensures
            final(self)@ == insert_entry(old(self)@, key@, v@),
            keys_distinct(final(self)@),
    {
        self.entries.insert(copy_str(key), v);
    }

    /// The header lines, `name: value\r\n` each.
    pub fn to_bytes(&self) -> (r: Vec<u8>)
        ensures
            r@ == entries_bytes(self@),
            keys_distinct(self@),
    {
        let _ = self.entries.len();
        table_bytes(&self.entries)
    }

    /// The `User-Agent` header.
    pub fn user_agent(&self) -> (r: Option<&str>)
        ensures
            r matches Some(v) ==> lookup(self@, "user-agent"@) == Some(v@),
            r is None ==> lookup(self@, "user-agent"@) is None,
    {
        self.entries.get("user-agent")
    }

    /// The `Content-Type` header, when it names a known type.
    pub fn content_type(&self) -> (r: Option<ContentType>)
        ensures
            r == (match lookup(self@, "content-type"@) {
                Some(v) => ContentType::from_name(v),
                None => None,
            }),
    {
        match self.entries.get("content-type") {
            Some(v) => match ContentType::parse(v) {
                Ok(c) => Some(c),
                Err(_) => None,
            },
            None => None,
        }
    }

    /// Whether the client asked to close the connection (`Connection: close`).
    pub fn close_connection(&self) -> (r: bool)
        ensures
            r == (lookup(self@, "connection"@) == Some("close"@)),
    {
        match self.entries.get("connection") {
            Some(v) => str_eq(v, "close"),
            None => false,
        }
    }

    /// Sets `Content-Type` to the name of `content_type`.
    pub fn set_content_type(&mut self, content_type: ContentType)
        ensures
            final(self)@ == insert_entry(old(self)@, "content-type"@, content_type.name()),
            keys_distinct(final(self)@),
    {
        self.insert_normalized("content-type", content_type.to_string());
    }

    /// Sets `Content-Encoding` to the name of `enc`.
    pub fn set_content_encoding(&mut self, enc: Encoding)
        ensures
            final(self)@ == insert_entry(old(self)@, "content-encoding"@, enc.name()),
            keys_distinct(final(self)@),
    {
        self.insert_normalized("content-encoding", enc.to_string());
    }
}

impl Default for Headers {
    fn default() -> (h: Headers)
        ensures
            h@ == Seq::<(Seq<char>, Seq<char>)>::empty(),
    {
        Headers::new()
    }
}

} // verus!
