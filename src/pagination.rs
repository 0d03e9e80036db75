//! Parsing of the `Link` response header that carries the navigation URLs of
//! a paginated listing.
//!
//! The header is a comma-separated list of entries of the form
//! `<URL>; rel="NAME"`. Each entry's URL segment may be preceded by optional
//! whitespace and must be enclosed in `<` and `>`; its relation segment must
//! read ` rel="NAME"` exactly. Entries whose relation is not one of `current`,
//! `prev`, `next`, `first` or `last` are skipped.
use vstd::prelude::*;
use vstd::utf8::{decode_utf8, valid_utf8};

use crate::error::CanvasError;

verus! {

/// The navigation URLs of one page of a listing.
#[derive(Debug, Default)]
pub struct PaginationInfo {
    pub current_url: Option<String>,
    pub next_url: Option<String>,
    pub prev_url: Option<String>,
    pub first_url: Option<String>,
    pub last_url: Option<String>,
}

/// What a `PaginationInfo` holds, as character sequences.
pub struct LinksView {
    pub current: Option<Seq<char>>,
    pub next: Option<Seq<char>>,
    pub prev: Option<Seq<char>>,
    pub first: Option<Seq<char>>,
    pub last: Option<Seq<char>>,
}

/// The characters of an optional string.
pub open spec fn opt_chars(s: &Option<String>) -> Option<Seq<char>> {
    match s {
        Some(t) => Some(t@),
        None => None,
    }
}

/// The bytes of an optional byte slice.
pub open spec fn opt_bytes(b: Option<&[u8]>) -> Option<Seq<u8>> {
    match b {
        Some(t) => Some(t@),
        None => None,
    }
}

impl View for PaginationInfo {
    type V = LinksView;

    open spec fn view(&self) -> LinksView {
        LinksView {
            current: opt_chars(&self.current_url),
            next: opt_chars(&self.next_url),
            prev: opt_chars(&self.prev_url),
            first: opt_chars(&self.first_url),
            last: opt_chars(&self.last_url),
        }
    }
}

/// The relation names that the parser records.
#[derive(Clone, Copy, Debug, PartialEq, Eq)]
pub enum Relation {
    Current,
    Prev,
    Next,
    First,
    Last,
}

/// No link at all: the listing has a single page.
pub open spec fn no_links() -> LinksView {
    LinksView { current: None, next: None, prev: None, first: None, last: None }
}

/// `info` with the URL of relation `r` replaced by `url`.
pub open spec fn with_link(info: LinksView, r: Relation, url: Seq<char>) -> LinksView {
    match r {
        Relation::Current => LinksView { current: Some(url), ..info },
        Relation::Prev => LinksView { prev: Some(url), ..info },
        Relation::Next => LinksView { next: Some(url), ..info },
        Relation::First => LinksView { first: Some(url), ..info },
        Relation::Last => LinksView { last: Some(url), ..info },
    }
}

/// The ASCII spelling of a relation name.
pub open spec fn relation_word(r: Relation) -> Seq<u8> {
    match r {
        Relation::Current => seq![99u8, 117, 114, 114, 101, 110, 116],
        Relation::Prev => seq![112u8, 114, 101, 118],
        Relation::Next => seq![110u8, 101, 120, 116],
        Relation::First => seq![102u8, 105, 114, 115, 116],
        Relation::Last => seq![108u8, 97, 115, 116],
    }
}

/// The relation spelled by `name`, if it is one of the recognized ones.
pub open spec fn relation_named(name: Seq<u8>) -> Option<Relation> {
    if name == relation_word(Relation::Current) {
        Some(Relation::Current)
    } else if name == relation_word(Relation::Prev) {
        Some(Relation::Prev)
    } else if name == relation_word(Relation::Next) {
        Some(Relation::Next)
    } else if name == relation_word(Relation::First) {
        Some(Relation::First)
    } else if name == relation_word(Relation::Last) {
        Some(Relation::Last)
    } else {
        None
    }
}

/// A byte that a readable header value may hold: visible ASCII or a tab.
pub open spec fn is_visible_ascii(b: u8) -> bool {
    (32 <= b && b < 127) || b == 9
}

/// Every byte of `s` is visible ASCII or a tab.
pub open spec fn all_visible(s: Seq<u8>) -> bool {
    forall|i: int| 0 <= i < s.len() ==> is_visible_ascii(#[trigger] s[i])
}

/// Optional whitespace: a space or a tab.
pub open spec fn is_ows(b: u8) -> bool {
    b == 32 || b == 9
}

/// `s` without its leading whitespace.
pub open spec fn skip_ows(s: Seq<u8>) -> Seq<u8>
    decreases s.len(),
{
    if s.len() > 0 && is_ows(s[0]) {
        skip_ows(s.drop_first())
    } else {
        s
    }
}

/// The index of the first `c` in `s`, or -1 where `s` holds none.
pub open spec fn index_of(s: Seq<u8>, c: u8) -> int
    decreases s.len(),
{
    if s.len() == 0 {
        -1
    } else if s[0] == c {
        0
    } else {
        let r = index_of(s.drop_first(), c);
        if r < 0 {
            -1
        } else {
            r + 1
        }
    }
}

/// `;`, which ends the URL segment of an entry.
pub open spec fn semicolon() -> u8 {
    59
}

/// `,`, which separates entries.
pub open spec fn comma() -> u8 {
    44
}

/// ` rel="`: what the relation segment of an entry starts with.
pub open spec fn rel_prefix() -> Seq<u8> {
    seq![32u8, 114, 101, 108, 61, 34]
}

/// The relation name of entry `e`: what stands between ` rel="` and the
/// closing `"` after its first `;`. None where the entry does not have that
/// shape.
pub open spec fn entry_relation(e: Seq<u8>) -> Option<Seq<u8>> {
    let k = index_of(e, semicolon());
    if k < 0 {
        None
    } else {
        let p = e.skip(k + 1);
        if p.len() >= 7 && p.take(6) == rel_prefix() && p.last() == 34u8 {
            Some(p.subrange(6, p.len() - 1))
        } else {
            None
        }
    }
}

/// The URL of entry `e`: what stands between `<` and `>` before its first `;`,
/// after optional leading whitespace. None where the entry does not have that
/// shape.
pub open spec fn entry_target(e: Seq<u8>) -> Option<Seq<u8>> {
    let k = index_of(e, semicolon());
    if k < 0 {
        None
    } else {
        let t = skip_ows(e.take(k));
        if t.len() >= 2 && t[0] == 60u8 && t.last() == 62u8 {
            Some(t.subrange(1, t.len() - 1))
        } else {
            None
        }
    }
}

/// `info` after reading entry `e`; None where the entry is malformed.
pub open spec fn apply_entry(info: LinksView, e: Seq<u8>) -> Option<LinksView> {
    match (entry_target(e), entry_relation(e)) {
        (Some(url), Some(name)) => match relation_named(name) {
            Some(r) => Some(with_link(info, r, decode_utf8(url))),
            None => Some(info),
        },
        _ => None,
    }
}

/// `info` after reading, in order, the comma-separated entries of `s`; None
/// where one of them is malformed.
pub open spec fn apply_entries(info: LinksView, s: Seq<u8>) -> Option<LinksView>
    decreases s.len(),
{
    let k = index_of(s, comma());
    if 0 <= k < s.len() {
        match apply_entry(info, s.take(k)) {
            Some(next) => apply_entries(next, s.skip(k + 1)),
            None => None,
        }
    } else {
        apply_entry(info, s)
    }
}

/// The links that a `Link` header value (None where the response has no such
/// header) describes; None where the value is unreadable or malformed.
pub open spec fn parse_links(header: Option<Seq<u8>>) -> Option<LinksView> {
    match header {
        None => Some(no_links()),
        Some(h) => if all_visible(h) {
            apply_entries(no_links(), h)
        } else {
            None
        },
    }
}

proof fn lemma_index_of(s: Seq<u8>, c: u8, k: int)
    requires
        0 <= k <= s.len(),
        forall|j: int| 0 <= j < k ==> s[j] != c,
        k < s.len() ==> s[k] == c,
    ensures
        index_of(s, c) == (if k == s.len() { -1 } else { k }),
    decreases s.len(),
{
    if s.len() > 0 && k > 0 {
        assert(s[0] != c);
        let t = s.drop_first();
        assert forall|j: int| 0 <= j < k - 1 implies t[j] != c by {
            assert(t[j] == s[j + 1]);
        }
        lemma_index_of(t, c, k - 1);
    }
}

proof fn lemma_ascii_valid_utf8(s: Seq<u8>)
    requires
        all_visible(s),
    ensures
        valid_utf8(s),
    decreases s.len(),
{
    if s.len() > 0 {
        assert(is_visible_ascii(s[0]));
        let t = s.subrange(1, s.len() as int);
        assert forall|i: int| 0 <= i < t.len() implies is_visible_ascii(#[trigger] t[i]) by {
            assert(t[i] == s[i + 1]);
        }
        lemma_ascii_valid_utf8(t);
    }
}

proof fn lemma_visible_subrange(s: Seq<u8>, lo: int, hi: int)
    requires
        all_visible(s),
        0 <= lo <= hi <= s.len(),
    ensures
        all_visible(s.subrange(lo, hi)),
{
    assert forall|i: int| 0 <= i < hi - lo implies is_visible_ascii(#[trigger] s.subrange(lo, hi)[i]) by {
        assert(s.subrange(lo, hi)[i] == s[lo + i]);
    }
}

/// `s` holds no byte `c`.
pub open spec fn lacks(s: Seq<u8>, c: u8) -> bool {
    forall|i: int| 0 <= i < s.len() ==> s[i] != c
}

/// A URL or relation name that can stand in an entry: readable, with no `,`
/// and no `;`.
pub open spec fn plain_field(s: Seq<u8>) -> bool {
    all_visible(s) && lacks(s, comma()) && lacks(s, semicolon())
}

/// The header entry `<url>; rel="name"`.
pub open spec fn link_entry(url: Seq<u8>, name: Seq<u8>) -> Seq<u8> {
    seq![60u8] + url + seq![62u8, 59u8] + rel_prefix() + name + seq![34u8]
}

/// The header that lists the entries `es` (pairs of URL and relation name),
/// separated by `, `.
pub open spec fn entries_text(es: Seq<(Seq<u8>, Seq<u8>)>) -> Seq<u8>
    decreases es.len(),
{
    if es.len() == 0 {
        Seq::empty()
    } else if es.len() == 1 {
        link_entry(es[0].0, es[0].1)
    } else {
        link_entry(es[0].0, es[0].1) + seq![44u8, 32u8] + entries_text(es.drop_first())
    }
}

/// `info` after an entry with URL `url` and relation name `name`.
pub open spec fn read_link(info: LinksView, url: Seq<u8>, name: Seq<u8>) -> LinksView {
    match relation_named(name) {
        Some(r) => with_link(info, r, decode_utf8(url)),
        None => info,
    }
}

/// `info` after the entries `es`, read in order.
pub open spec fn links_of(info: LinksView, es: Seq<(Seq<u8>, Seq<u8>)>) -> LinksView
    decreases es.len(),
{
    if es.len() == 0 {
        info
    } else {
        read_link(links_of(info, es.drop_last()), es.last().0, es.last().1)
    }
}

/// The URL that `info` holds for relation `r`.
pub open spec fn link_field(info: LinksView, r: Relation) -> Option<Seq<char>> {
    match r {
        Relation::Current => info.current,
        Relation::Prev => info.prev,
        Relation::Next => info.next,
        Relation::First => info.first,
        Relation::Last => info.last,
    }
}

/// The URL of the last of the entries `es` that names relation `r`, if any.
pub open spec fn last_link_for(es: Seq<(Seq<u8>, Seq<u8>)>, r: Relation) -> Option<Seq<char>>
    decreases es.len(),
{
    if es.len() == 0 {
        None
    } else if relation_named(es.last().1) == Some(r) {
        Some(decode_utf8(es.last().0))
    } else {
        last_link_for(es.drop_last(), r)
    }
}

proof fn lemma_index_of_concat(a: Seq<u8>, b: Seq<u8>, c: u8)
    requires
        lacks(a, c),
    ensures
        index_of(a + b, c) == (if index_of(b, c) < 0 { -1 } else { a.len() + index_of(b, c) }),
    decreases a.len(),
{
    if a.len() > 0 {
        assert((a + b)[0] == a[0]);
        assert((a + b).drop_first() =~= a.drop_first() + b);
        lemma_index_of_concat(a.drop_first(), b, c);
    } else {
        assert(a + b =~= b);
    }
}

proof fn lemma_lacks_concat(a: Seq<u8>, b: Seq<u8>, c: u8)
    requires
        lacks(a, c),
        lacks(b, c),
    ensures
        lacks(a + b, c),
{
    assert forall|i: int| 0 <= i < (a + b).len() implies (a + b)[i] != c by {
        if i >= a.len() {
            assert((a + b)[i] == b[i - a.len()]);
        }
    }
}

proof fn lemma_visible_concat(a: Seq<u8>, b: Seq<u8>)
    requires
        all_visible(a),
        all_visible(b),
    ensures
        all_visible(a + b),
{
    assert forall|i: int| 0 <= i < (a + b).len() implies is_visible_ascii(#[trigger] (a + b)[i]) by {
        if i < a.len() {
            assert((a + b)[i] == a[i]);
        } else {
            assert((a + b)[i] == b[i - a.len()]);
        }
    }
}

proof fn lemma_entry_shape(url: Seq<u8>, name: Seq<u8>)
    requires
        plain_field(url),
        plain_field(name),
    ensures
        lacks(link_entry(url, name), comma()),
        all_visible(link_entry(url, name)),
{
    let e = link_entry(url, name);
    let a = seq![60u8] + url + seq![62u8, 59u8] + rel_prefix();
    assert(e =~= a + (name + seq![34u8]));
    lemma_lacks_concat(seq![60u8], url, comma());
    lemma_lacks_concat(seq![60u8] + url, seq![62u8, 59u8], comma());
    lemma_lacks_concat(seq![60u8] + url + seq![62u8, 59u8], rel_prefix(), comma());
    lemma_lacks_concat(name, seq![34u8], comma());
    lemma_lacks_concat(a, name + seq![34u8], comma());
    lemma_visible_concat(seq![60u8], url);
    lemma_visible_concat(seq![60u8] + url, seq![62u8, 59u8]);
    lemma_visible_concat(seq![60u8] + url + seq![62u8, 59u8], rel_prefix());
    lemma_visible_concat(name, seq![34u8]);
    lemma_visible_concat(a, name + seq![34u8]);
}

proof fn lemma_read_entry(info: LinksView, lead: Seq<u8>, url: Seq<u8>, name: Seq<u8>)
    requires
        lead == Seq::<u8>::empty() || lead == seq![32u8],
        plain_field(url),
    ensures
        apply_entry(info, lead + link_entry(url, name)) == Some(read_link(info, url, name)),
{
    let e = lead + link_entry(url, name);
    let head = lead + seq![60u8] + url + seq![62u8];
    let tail = seq![59u8] + rel_prefix() + name + seq![34u8];
    assert(e =~= head + tail);
    lemma_lacks_concat(lead, seq![60u8], semicolon());
    lemma_lacks_concat(lead + seq![60u8], url, semicolon());
    lemma_lacks_concat(lead + seq![60u8] + url, seq![62u8], semicolon());
    lemma_index_of_concat(head, tail, semicolon());
    let k = head.len() as int;
    assert(index_of(e, semicolon()) == k);
    assert(e.take(k) =~= head);
    let t = seq![60u8] + url + seq![62u8];
    assert(t[0] == 60u8);
    assert(skip_ows(t) == t);
    if lead.len() > 0 {
        assert(head[0] == 32u8);
        assert(head.drop_first() =~= t);
    } else {
        assert(head =~= t);
    }
    assert(skip_ows(head) == t);
    assert(t.subrange(1, t.len() - 1) =~= url);
    let p = e.skip(k + 1);
    assert(p =~= rel_prefix() + name + seq![34u8]);
    assert(p.take(6) =~= rel_prefix());
    assert(p.subrange(6, p.len() - 1) =~= name);
}

proof fn lemma_links_of_front(info: LinksView, es: Seq<(Seq<u8>, Seq<u8>)>)
    requires
        es.len() >= 1,
    ensures
        links_of(info, es) == links_of(read_link(info, es[0].0, es[0].1), es.drop_first()),
    decreases es.len(),
{
    reveal_with_fuel(links_of, 2);
    if es.len() > 1 {
        lemma_links_of_front(info, es.drop_last());
        assert(es.drop_last().drop_first() =~= es.drop_first().drop_last());
        assert(es.drop_last()[0] == es[0]);
        assert(es.drop_first().last() == es.last());
    } else {
        assert(es.drop_last() =~= Seq::<(Seq<u8>, Seq<u8>)>::empty());
        assert(es.drop_first() =~= Seq::<(Seq<u8>, Seq<u8>)>::empty());
    }
}

proof fn lemma_read_entries(info: LinksView, lead: Seq<u8>, es: Seq<(Seq<u8>, Seq<u8>)>)
    requires
        lead == Seq::<u8>::empty() || lead == seq![32u8],
        es.len() >= 1,
        forall|i: int| 0 <= i < es.len() ==> plain_field(#[trigger] es[i].0) && plain_field(es[i].1),
    ensures
        apply_entries(info, lead + entries_text(es)) == Some(links_of(info, es)),
        all_visible(entries_text(es)),
    decreases es.len(),
{
    let e0 = link_entry(es[0].0, es[0].1);
    lemma_entry_shape(es[0].0, es[0].1);
    lemma_read_entry(info, lead, es[0].0, es[0].1);
    lemma_links_of_front(info, es);
    let next = read_link(info, es[0].0, es[0].1);
    lemma_lacks_concat(lead, e0, comma());
    if es.len() == 1 {
        lemma_index_of_concat(lead + e0, Seq::empty(), comma());
        assert(lead + e0 + Seq::<u8>::empty() =~= lead + entries_text(es));
        assert(es.drop_first() =~= Seq::<(Seq<u8>, Seq<u8>)>::empty());
    } else {
        let rest = es.drop_first();
        lemma_read_entries(next, seq![32u8], rest);
        let b = seq![44u8, 32u8] + entries_text(rest);
        let s = lead + entries_text(es);
        assert(s =~= (lead + e0) + b);
        lemma_index_of_concat(lead + e0, b, comma());
        let k = (lead + e0).len() as int;
        assert(s.take(k) =~= lead + e0);
        assert(s.skip(k + 1) =~= seq![32u8] + entries_text(rest));
        lemma_visible_concat(e0, seq![44u8, 32u8]);
        lemma_visible_concat(e0 + seq![44u8, 32u8], entries_text(rest));
        assert(entries_text(es) =~= e0 + seq![44u8, 32u8] + entries_text(rest));
    }
}

proof fn lemma_links_field(es: Seq<(Seq<u8>, Seq<u8>)>, r: Relation)
    ensures
        link_field(links_of(no_links(), es), r) == last_link_for(es, r),
    decreases es.len(),
{
    if es.len() > 0 {
        lemma_links_field(es.drop_last(), r);
    }
}

/// Well-formed headers: a header that lists entries `<url>; rel="name"`,
/// separated by `, `, parses, and holds for each recognized relation exactly
/// the URL of the last entry that names it (None where no entry does). In
/// particular the `next` field is the URL of the entry with `rel="next"`,
/// whatever the other entries say.
pub proof fn lemma_well_formed_header(es: Seq<(Seq<u8>, Seq<u8>)>)
    requires
        es.len() >= 1,
        forall|i: int| 0 <= i < es.len() ==> plain_field(#[trigger] es[i].0) && plain_field(es[i].1),
    ensures
        parse_links(Some(entries_text(es))) is Some,
        forall|r: Relation| link_field(#[trigger] parse_links(Some(entries_text(es)))->0, r)
            == last_link_for(es, r),
{
    lemma_read_entries(no_links(), Seq::empty(), es);
    assert(Seq::<u8>::empty() + entries_text(es) =~= entries_text(es));
    assert forall|r: Relation| link_field(#[trigger] parse_links(Some(entries_text(es)))->0, r)
        == last_link_for(es, r) by {
        lemma_links_field(es, r);
    }
}

/// An absent header stands for a single page: it parses, with no link.
pub proof fn lemma_absent_header()
    ensures
        parse_links(None) == Some(no_links()),
{
}

/// Unrecognized relations are skipped: a well-formed entry whose relation is
/// none of the five recognized ones parses, and records nothing.
pub proof fn lemma_unknown_relation_skipped(url: Seq<u8>, name: Seq<u8>)
    requires
        plain_field(url),
        plain_field(name),
        relation_named(name) is None,
    ensures
        parse_links(Some(link_entry(url, name))) == Some(no_links()),
{
    let es = seq![(url, name)];
    lemma_read_entries(no_links(), Seq::empty(), es);
    assert(entries_text(es) == link_entry(url, name));
    assert(Seq::<u8>::empty() + entries_text(es) =~= link_entry(url, name));
    assert(es.drop_last() =~= Seq::<(Seq<u8>, Seq<u8>)>::empty());
    assert(es.last() == (url, name));
    reveal_with_fuel(links_of, 2);
    assert(links_of(no_links(), es) == read_link(no_links(), url, name));
}

/// The entry `<url>; rel=name`, without the quotes round the name.
pub open spec fn unquoted_entry(url: Seq<u8>, name: Seq<u8>) -> Seq<u8> {
    seq![60u8] + url + seq![62u8, 59u8, 32u8, 114u8, 101u8, 108u8, 61u8] + name
}

/// A relation without its quotes is a format error: the entry `<url>; rel=name`
/// does not parse, whatever the URL and a name that does not start with `"`.
pub proof fn lemma_unquoted_relation_rejected(url: Seq<u8>, name: Seq<u8>)
    requires
        plain_field(url),
        lacks(name, comma()),
        name.len() == 0 || name[0] != 34u8,
    ensures
        parse_links(Some(unquoted_entry(url, name))) is None,
{
    let e = unquoted_entry(url, name);
    let head = seq![60u8] + url + seq![62u8];
    let tail = seq![59u8, 32u8, 114u8, 101u8, 108u8, 61u8] + name;
    assert(e =~= head + tail);
    lemma_lacks_concat(seq![60u8], url, semicolon());
    lemma_lacks_concat(seq![60u8] + url, seq![62u8], semicolon());
    lemma_index_of_concat(head, tail, semicolon());
    lemma_lacks_concat(seq![60u8], url, comma());
    lemma_lacks_concat(seq![60u8] + url, seq![62u8], comma());
    lemma_lacks_concat(head, seq![59u8, 32u8, 114u8, 101u8, 108u8, 61u8], comma());
    lemma_lacks_concat(head + seq![59u8, 32u8, 114u8, 101u8, 108u8, 61u8], name, comma());
    assert(e =~= head + seq![59u8, 32u8, 114u8, 101u8, 108u8, 61u8] + name);
    lemma_index_of_concat(e, Seq::empty(), comma());
    assert(e + Seq::<u8>::empty() =~= e);
    let k = head.len() as int;
    let p = e.skip(k + 1);
    assert(p =~= seq![32u8, 114u8, 101u8, 108u8, 61u8] + name);
    if p.len() >= 7 {
        assert(p.take(6)[5] == name[0]);
        assert(rel_prefix()[5] == 34u8);
    }
    assert(entry_relation(e) is None);
}

/// Relies on `std::str::from_utf8`: it succeeds exactly on valid UTF-8 and
/// then holds the characters that the bytes encode.
#[verifier::external_body]
fn utf8_string(b: &[u8]) -> (r: Option<String>)
    ensures
        r is Some <==> valid_utf8(b@),
        r matches Some(s) ==> s@ == decode_utf8(b@),
{
    match std::str::from_utf8(b) {
        Ok(s) => Some(s.to_string()),
        Err(_) => None,
    }
}

/// Whether every byte of `b` is visible ASCII or a tab, as `HeaderValue::to_str`
/// asks of a readable header.
fn is_readable(b: &[u8]) -> (r: bool)
    ensures
        r == all_visible(b@),
{
    let mut i: usize = 0;
    while i < b.len()
        invariant
            i <= b@.len(),
            forall|j: int| 0 <= j < i ==> is_visible_ascii(#[trigger] b@[j]),
        decreases b@.len() - i,
    {
        let c = b[i];
        if !((32 <= c && c < 127) || c == 9) {
            return false;
        }
        i = i + 1;
    }
    true
}

/// The first index in `lo..hi` where `h` holds `c`, or `hi`.
fn find_byte(h: &[u8], lo: usize, hi: usize, c: u8) -> (k: usize)
    requires
        lo <= hi <= h@.len(),
    ensures
        lo <= k <= hi,
        forall|j: int| lo <= j < k ==> h@[j] != c,
        k < hi ==> h@[k as int] == c,
        index_of(h@.subrange(lo as int, hi as int), c) == (if k == hi { -1 } else { k - lo }),
{
    let mut k = lo;
    while k < hi && h[k] != c
        invariant
            lo <= k <= hi,
            hi <= h@.len(),
            forall|j: int| lo <= j < k ==> h@[j] != c,
        decreases hi - k,
    {
        k = k + 1;
    }
    proof {
        let s = h@.subrange(lo as int, hi as int);
        assert forall|j: int| 0 <= j < k - lo implies s[j] != c by {
            assert(s[j] == h@[lo + j]);
        }
        lemma_index_of(s, c, k - lo);
    }
    k
}

/// Whether `h[lo..hi]` spells `word`.
fn same_bytes(h: &[u8], lo: usize, hi: usize, word: &[u8]) -> (r: bool)
    requires
        lo <= hi <= h@.len(),
    ensures
        r == (h@.subrange(lo as int, hi as int) == word@),
{
    if hi - lo != word.len() {
        return false;
    }
    let mut i: usize = 0;
    while i < word.len()
        invariant
            hi - lo == word@.len(),
            lo <= hi <= h@.len(),
            i <= word@.len(),
            forall|j: int| 0 <= j < i ==> h@[lo + j] == word@[j],
        decreases word@.len() - i,
    {
        if h[lo + i] != word[i] {
            assert(h@.subrange(lo as int, hi as int)[i as int] != word@[i as int]);
            return false;
        }
        i = i + 1;
    }
    assert(h@.subrange(lo as int, hi as int) =~= word@);
    true
}

/// The relation that `h[lo..hi]` names, if it is a recognized one.
fn relation_at(h: &[u8], lo: usize, hi: usize) -> (r: Option<Relation>)
    requires
        lo <= hi <= h@.len(),
    ensures
        r == relation_named(h@.subrange(lo as int, hi as int)),
{
    proof {
        assert(relation_word(Relation::Current) =~= [99u8, 117, 114, 114, 101, 110, 116]@);
        assert(relation_word(Relation::Prev) =~= [112u8, 114, 101, 118]@);
        assert(relation_word(Relation::Next) =~= [110u8, 101, 120, 116]@);
        assert(relation_word(Relation::First) =~= [102u8, 105, 114, 115, 116]@);
        assert(relation_word(Relation::Last) =~= [108u8, 97, 115, 116]@);
    }
    if same_bytes(h, lo, hi, &[99u8, 117, 114, 114, 101, 110, 116]) {
        Some(Relation::Current)
    } else if same_bytes(h, lo, hi, &[112u8, 114, 101, 118]) {
        Some(Relation::Prev)
    } else if same_bytes(h, lo, hi, &[110u8, 101, 120, 116]) {
        Some(Relation::Next)
    } else if same_bytes(h, lo, hi, &[102u8, 105, 114, 115, 116]) {
        Some(Relation::First)
    } else if same_bytes(h, lo, hi, &[108u8, 97, 115, 116]) {
        Some(Relation::Last)
    } else {
        None
    }
}

impl PaginationInfo {
    /// A value with no link: what a single-page listing has.
    pub fn new() -> (r: PaginationInfo)
        ensures
            r@ == no_links(),
    {
        PaginationInfo {
            current_url: None,
            next_url: None,
            prev_url: None,
            first_url: None,
            last_url: None,
        }
    }

    /// Records `url` as the link of relation `r`.
    pub fn set_link(&mut self, r: Relation, url: String)
        ensures
            final(self)@ == with_link(old(self)@, r, url@),
    {
        match r {
            Relation::Current => self.current_url = Some(url),
            Relation::Prev => self.prev_url = Some(url),
            Relation::Next => self.next_url = Some(url),
            Relation::First => self.first_url = Some(url),
            Relation::Last => self.last_url = Some(url),
        }
    }
}

/// Reads the entry `h[lo..hi]` into `info`; false, with `info` unspecified,
/// where the entry is malformed.
fn read_entry(info: &mut PaginationInfo, h: &[u8], lo: usize, hi: usize) -> (ok: bool)
    requires
        lo <= hi <= h@.len(),
        all_visible(h@),
    ensures
        ok == apply_entry(old(info)@, h@.subrange(lo as int, hi as int)) is Some,
        ok ==> final(info)@ == apply_entry(old(info)@, h@.subrange(lo as int, hi as int))->0,
{
    let ghost e = h@.subrange(lo as int, hi as int);
    let k = find_byte(h, lo, hi, 59);
    if k == hi {
        return false;
    }
    assert(index_of(e, semicolon()) == k - lo);
    // The relation segment: ` rel="NAME"`.
    let p = k + 1;
    assert(e.skip(k - lo + 1) =~= h@.subrange(p as int, hi as int));
    if hi - p < 7 || !same_bytes(h, p, p + 6, &[32u8, 114, 101, 108, 61, 34]) || h[hi - 1] != 34 {
        proof {
            assert([32u8, 114, 101, 108, 61, 34]@ =~= rel_prefix());
            let q = h@.subrange(p as int, hi as int);
            if q.len() >= 7 {
                assert(q.take(6) =~= h@.subrange(p as int, p + 6));
                assert(q.last() == h@[hi - 1]);
            }
        }
        return false;
    }
    proof {
        assert([32u8, 114, 101, 108, 61, 34]@ =~= rel_prefix());
        let q = h@.subrange(p as int, hi as int);
        assert(q.take(6) =~= h@.subrange(p as int, p + 6));
        assert(q.subrange(6, q.len() - 1) =~= h@.subrange(p + 6, hi - 1));
    }
    // The URL segment: optional whitespace, then `<URL>`.
    assert(e.take(k - lo) =~= h@.subrange(lo as int, k as int));
    let mut i = lo;
    while i < k && (h[i] == 32 || h[i] == 9)
        invariant
            lo <= i <= k,
            k < hi <= h@.len(),
            skip_ows(e.take(k - lo)) == skip_ows(h@.subrange(i as int, k as int)),
        decreases k - i,
    {
        assert(h@.subrange(i as int, k as int).drop_first() =~= h@.subrange(i + 1, k as int));
        i = i + 1;
    }
    assert(skip_ows(h@.subrange(i as int, k as int)) == h@.subrange(i as int, k as int));
    if k - i < 2 || h[i] != 60 || h[k - 1] != 62 {
        return false;
    }
    let ghost t = h@.subrange(i as int, k as int);
    assert(t.subrange(1, t.len() - 1) =~= h@.subrange(i + 1, k - 1));
    let r = relation_at(h, p + 6, hi - 1);
    match r {
        None => true,
        Some(rel) => {
            proof {
                lemma_visible_subrange(h@, i + 1, k - 1);
                lemma_ascii_valid_utf8(h@.subrange(i + 1, k - 1));
            }
            let url = utf8_string(&h[i + 1..k - 1]);
            match url {
                Some(u) => {
                    info.set_link(rel, u);
                    true
                },
                None => false,
            }
        },
    }
}

/// Parses the value of a `Link` response header (None where the response has
/// none) into the navigation URLs it names.
///
/// Entries with an unrecognized relation are skipped; where one relation is
/// named twice, the later entry wins.
pub fn parse_pagination_info(link_header: Option<&[u8]>) -> (r: Result<PaginationInfo, CanvasError>)
    ensures
        match parse_links(opt_bytes(link_header)) {
            Some(v) => r matches Ok(info) && info@ == v,
            None => r matches Err(CanvasError::Pagination),
        },
{
    let h = match link_header {
        None => {
            return Ok(PaginationInfo::new());
        },
        Some(h) => h,
    };
    if !is_readable(h) {
        return Err(CanvasError::Pagination);
    }
    let mut info = PaginationInfo::new();
    let mut start: usize = 0;
    assert(h@.skip(0) =~= h@);
    assert(parse_links(opt_bytes(link_header)) == apply_entries(no_links(), h@));
    loop
        invariant
            start <= h@.len(),
            all_visible(h@),
            parse_links(opt_bytes(link_header)) == apply_entries(no_links(), h@),
            apply_entries(no_links(), h@) == apply_entries(info@, h@.skip(start as int)),
        decreases h@.len() - start,
    {
        let end = find_byte(h, start, h.len(), 44);
        let ghost s = h@.skip(start as int);
        assert(s =~= h@.subrange(start as int, h@.len() as int));
        assert(s.take(end - start) =~= h@.subrange(start as int, end as int));
        let ghost before = info@;
        assert(index_of(s, comma()) == (if end == h@.len() { -1 } else { end - start }));
        if !read_entry(&mut info, h, start, end) {
            assert(apply_entries(before, s) is None);
            return Err(CanvasError::Pagination);
        }
        if end == h.len() {
            assert(apply_entries(before, s) == Some(info@));
            return Ok(info);
        }
        assert(s.skip(end - start + 1) =~= h@.skip(end + 1));
        assert(apply_entries(before, s) == apply_entries(info@, h@.skip(end + 1)));
        start = end + 1;
    }
}

} // verus!
