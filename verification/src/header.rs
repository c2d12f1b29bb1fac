//! The attribute list of an XML start tag, `Name key="value" key2="value2"`.
use crate::error::{NameSyntaxError, StationError};
use crate::numbers::{char_is_whitespace, is_white_space};
use crate::text::string_push;
use vstd::prelude::*;
use vstd::string::StrSliceExecFns;

verus! {

/// A string map without two entries for one key.
pub struct HeaderMap {
    entries: Vec<(String, String)>,
}

pub open spec fn pair_views(s: Seq<(String, String)>) -> Seq<(Seq<char>, Seq<char>)> {
    s.map_values(|p: (String, String)| (p.0@, p.1@))
}

/// The map that a sequence of distinct-key pairs holds.
pub open spec fn pairs_map(s: Seq<(Seq<char>, Seq<char>)>) -> Map<Seq<char>, Seq<char>> {
    Map::new(
        |k: Seq<char>| exists|i: int| 0 <= i < s.len() && s[i].0 == k,
        |k: Seq<char>| s[choose|i: int| 0 <= i < s.len() && s[i].0 == k].1,
    )
}

pub open spec fn keys_distinct(s: Seq<(Seq<char>, Seq<char>)>) -> bool {
    forall|i: int, j: int| 0 <= i < s.len() && 0 <= j < s.len() && i != j ==> s[i].0 != s[j].0
}

proof fn lemma_pairs_map_len(s: Seq<(Seq<char>, Seq<char>)>)
    requires
        keys_distinct(s),
    ensures
        pairs_map(s).dom().finite(),
        pairs_map(s).dom().len() == s.len(),
    decreases s.len(),
{
    if s.len() == 0 {
        assert(pairs_map(s).dom() =~= Set::<Seq<char>>::empty());
    } else {
        let t = s.drop_last();
        let k = s.last().0;
        assert(keys_distinct(t));
        lemma_pairs_map_len(t);
        assert forall|x: Seq<char>| #[trigger] pairs_map(s).dom().contains(x) == pairs_map(
            t,
        ).dom().insert(k).contains(x) by {
            if pairs_map(s).dom().contains(x) && x != k {
                let j = choose|j: int| 0 <= j < s.len() && s[j].0 == x;
                assert(j < t.len());
                assert(t[j].0 == x);
            }
            if pairs_map(t).dom().contains(x) {
                let j = choose|j: int| 0 <= j < t.len() && t[j].0 == x;
                assert(s[j].0 == x);
            }
            if x == k {
                assert(s[s.len() - 1].0 == x);
            }
        }
        assert(pairs_map(s).dom() =~= pairs_map(t).dom().insert(k));
        assert(!pairs_map(t).dom().contains(k)) by {
            if pairs_map(t).dom().contains(k) {
                let j = choose|j: int| 0 <= j < t.len() && t[j].0 == k;
                assert(s[j].0 == s[s.len() - 1].0);
            }
        }
    }
}

impl View for HeaderMap {
    type V = Map<Seq<char>, Seq<char>>;

    closed spec fn view(&self) -> Map<Seq<char>, Seq<char>> {
        pairs_map(pair_views(self.entries@))
    }
}

impl HeaderMap {
    pub closed spec fn wf(&self) -> bool {
        keys_distinct(pair_views(self.entries@))
    }

    pub fn new() -> (m: HeaderMap)
        ensures
            m.wf(),
            m@ == Map::<Seq<char>, Seq<char>>::empty(),
    {
        let m = HeaderMap { entries: Vec::new() };
        assert(m@ =~= Map::<Seq<char>, Seq<char>>::empty());
        m
    }

    fn find(&self, key: &String) -> (r: Option<usize>)
        requires
            self.wf(),
        ensures
            r matches Some(i) ==> i < self.entries@.len() && self.entries@[i as int].0@ == key@,
            r is None ==> !self@.dom().contains(key@),
    {
        let mut i: usize = 0;
        while i < self.entries.len()
            invariant
                i <= self.entries@.len(),
                forall|j: int| 0 <= j < i ==> self.entries@[j].0@ != key@,
            decreases self.entries@.len() - i,
        {
            if self.entries[i].0 == *key {
                return Some(i);
            }
            i = i + 1;
        }
        proof {
            let s = pair_views(self.entries@);
            assert forall|j: int| 0 <= j < s.len() implies s[j].0 != key@ by {
                assert(s[j] == (self.entries@[j].0@, self.entries@[j].1@));
            }
        }
        None
    }

    /// Inserts `key` with `value`, replacing the value it had.
    pub fn insert(&mut self, key: String, value: String)
        requires
            old(self).wf(),
        ensures
            final(self).wf(),
            final(self)@ == old(self)@.insert(key@, value@),
    {
        let ghost old_s = pair_views(self.entries@);
        match self.find(&key) {
            Some(i) => {
                let ghost k = key@;
                self.entries.set(i, (key, value));
                proof {
                    let s = pair_views(self.entries@);
                    assert(s =~= old_s.update(i as int, (k, value@)));
                    assert(old_s[i as int].0 == k);
                    assert(keys_distinct(s));
                    assert forall|x: Seq<char>| #[trigger] pairs_map(s).dom().contains(x)
                        == old(self)@.insert(k, value@).dom().contains(x) by {
                        if x != k {
                            if pairs_map(s).dom().contains(x) {
                                let j = choose|j: int| 0 <= j < s.len() && s[j].0 == x;
                                assert(old_s[j].0 == x);
                            }
                            if old(self)@.dom().contains(x) {
                                let j = choose|j: int| 0 <= j < old_s.len() && old_s[j].0 == x;
                                assert(s[j].0 == x);
                            }
                        } else {
                            assert(s[i as int].0 == x);
                        }
                    }
                    assert forall|x: Seq<char>| #[trigger] pairs_map(s).dom().contains(x)
                        implies pairs_map(s)[x] == old(self)@.insert(k, value@)[x] by {
                        let j = choose|j: int| 0 <= j < s.len() && s[j].0 == x;
                        if x == k {
                            assert(j == i);
                        } else {
                            let j2 = choose|j2: int| 0 <= j2 < old_s.len() && old_s[j2].0 == x;
                            assert(old_s[j].0 == x);
                            assert(j == j2);
                        }
                    }
                    assert(pairs_map(s) =~= old(self)@.insert(k, value@));
                }
            },
            None => {
                let ghost k = key@;
                let ghost v = value@;
                self.entries.push((key, value));
                proof {
                    let s = pair_views(self.entries@);
                    let n: int = old_s.len() as int;
                    assert(s =~= old_s.push((k, v)));
                    assert(keys_distinct(s)) by {
                        assert forall|a: int, b: int|
                            0 <= a < s.len() && 0 <= b < s.len() && a != b implies s[a].0
                            != s[b].0 by {
                            if a == n {
                                assert(!pairs_map(old_s).dom().contains(k));
                                assert(!(0 <= b < old_s.len() && old_s[b].0 == k));
                            } else if b == n {
                                assert(!(0 <= a < old_s.len() && old_s[a].0 == k));
                            }
                        }
                    }
                    assert forall|x: Seq<char>| #[trigger] pairs_map(s).dom().contains(x)
                        == old(self)@.insert(k, v).dom().contains(x) by {
                        if x != k {
                            if pairs_map(s).dom().contains(x) {
                                let j = choose|j: int| 0 <= j < s.len() && s[j].0 == x;
                                assert(old_s[j].0 == x);
                            }
                            if old(self)@.dom().contains(x) {
                                let j = choose|j: int| 0 <= j < old_s.len() && old_s[j].0 == x;
                                assert(s[j].0 == x);
                            }
                        } else {
                            assert(s[n].0 == x);
                        }
                    }
                    assert forall|x: Seq<char>| #[trigger] pairs_map(s).dom().contains(x)
                        implies pairs_map(s)[x] == old(self)@.insert(k, v)[x] by {
                        let j = choose|j: int| 0 <= j < s.len() && s[j].0 == x;
                        if x == k {
                            assert(j == n);
                        } else {
                            let j2 = choose|j2: int| 0 <= j2 < old_s.len() && old_s[j2].0 == x;
                            assert(old_s[j].0 == x);
                            assert(j == j2);
                        }
                    }
                    assert(pairs_map(s) =~= old(self)@.insert(k, v));
                }
            },
        }
    }

    /// The number of keys.
    pub fn len(&self) -> (r: usize)
        requires
            self.wf(),
        ensures
            r == self@.dom().len(),
    {
        proof {
            lemma_pairs_map_len(pair_views(self.entries@));
        }
        self.entries.len()
    }

    /// The value stored for `key`.
    pub fn get(&self, key: &str) -> (r: Option<&String>)
        requires
            self.wf(),
        ensures
            r is Some <==> self@.dom().contains(key@),
            r matches Some(v) ==> v@ == self@[key@],
    {
        let k = key.to_string();
        match self.find(&k) {
            Some(i) => {
                proof {
                    let s = pair_views(self.entries@);
                    assert(s[i as int].0 == k@);
                    let j = choose|j: int| 0 <= j < s.len() && s[j].0 == k@;
                    assert(j == i);
                }
                Some(&self.entries[i].1)
            },
            None => None,
        }
    }
}

/// Where the reading of a start tag stands.
#[derive(Clone, Copy, Debug, PartialEq, Eq)]
pub enum HeaderPhase {
    InName,
    WaitingIdentifier,
    InIdentifier,
    WaitingEquals,
    WaitingValue,
    InValueInQuotes,
}

/// The reader's state: its phase, the identifier and value being read, and the map so far.
pub struct HeaderState {
    pub phase: HeaderPhase,
    pub identifier: Option<Seq<char>>,
    pub value: Option<Seq<char>>,
    pub map: Map<Seq<char>, Seq<char>>,
}

pub open spec fn header_start() -> HeaderState {
    HeaderState {
        phase: HeaderPhase::InName,
        identifier: Some(Seq::empty()),
        value: Some(Seq::empty()),
        map: Map::empty(),
    }
}

/// One character of the start tag.
pub open spec fn header_step(st: HeaderState, c: char) -> Result<HeaderState, StationError> {
    match st.phase {
        HeaderPhase::InName => if is_white_space(c) {
            Ok(HeaderState { phase: HeaderPhase::WaitingIdentifier, ..st })
        } else {
            Ok(st)
        },
        HeaderPhase::WaitingIdentifier => if !is_white_space(c) {
            Ok(HeaderState { phase: HeaderPhase::InIdentifier, identifier: Some(seq![c]), ..st })
        } else {
            Ok(st)
        },
        HeaderPhase::InIdentifier => if !is_white_space(c) {
            if c == '=' {
                Ok(HeaderState { phase: HeaderPhase::WaitingValue, ..st })
            } else {
                Ok(HeaderState { identifier: Some(st.identifier.unwrap().push(c)), ..st })
            }
        } else {
            Ok(HeaderState { phase: HeaderPhase::WaitingEquals, ..st })
        },
        HeaderPhase::WaitingEquals => if !is_white_space(c) {
            if c == '=' {
                Ok(HeaderState { phase: HeaderPhase::WaitingValue, ..st })
            } else {
                Err(StationError::InvalidNameSyntax(NameSyntaxError::ExpectedEquals { got: c }))
            }
        } else {
            Ok(st)
        },
        HeaderPhase::WaitingValue => if !is_white_space(c) {
            if c == '"' {
                Ok(
                    HeaderState {
                        phase: HeaderPhase::InValueInQuotes,
                        value: Some(Seq::empty()),
                        ..st
                    },
                )
            } else {
                Err(StationError::NeedNameQuotes)
            }
        } else {
            Ok(st)
        },
        HeaderPhase::InValueInQuotes => if c == '"' {
            match st.identifier {
                None => Err(StationError::InvalidNameSyntax(NameSyntaxError::NoIdentifierFound)),
                Some(id) => match st.value {
                    None => Err(StationError::InvalidNameSyntax(NameSyntaxError::NoValueFound)),
                    Some(v) => Ok(
                        HeaderState {
                            phase: HeaderPhase::WaitingIdentifier,
                            identifier: None,
                            value: None,
                            map: st.map.insert(id, v),
                        },
                    ),
                },
            }
        } else {
            Ok(HeaderState { value: Some(st.value.unwrap().push(c)), ..st })
        },
    }
}

/// The reader after the characters `s`, or the first error.
pub open spec fn header_run(s: Seq<char>) -> Result<HeaderState, StationError>
    decreases s.len(),
{
    if s.len() == 0 {
        Ok(header_start())
    } else {
        match header_run(s.drop_last()) {
            Ok(st) => header_step(st, s.last()),
            Err(e) => Err(e),
        }
    }
}

/// The attribute map of the start tag `s`, or the error that stops its reading.
pub open spec fn parse_header_spec(s: Seq<char>) -> Result<Map<Seq<char>, Seq<char>>, StationError> {
    match header_run(s) {
        Ok(st) => Ok(st.map),
        Err(e) => Err(e),
    }
}

/// The identifier is present while it is read and until its value is stored, and
/// the value is present while it is read.
pub open spec fn header_state_inv(st: HeaderState) -> bool {
    &&& (st.phase is InIdentifier || st.phase is WaitingEquals || st.phase is WaitingValue
        || st.phase is InValueInQuotes) ==> st.identifier is Some
    &&& st.phase is InValueInQuotes ==> st.value is Some
}

pub proof fn lemma_header_run_inv(s: Seq<char>)
    ensures
        header_run(s) matches Ok(st) ==> header_state_inv(st),
    decreases s.len(),
{
    if s.len() > 0 {
        lemma_header_run_inv(s.drop_last());
    }
}

/// An attribute name: not empty, and without white space.
pub open spec fn clean_key(k: Seq<char>) -> bool {
    k.len() > 0 && forall|i: int| 0 <= i < k.len() ==> !is_white_space(#[trigger] k[i])
}

/// An attribute value: without double quotes.
pub open spec fn clean_value(v: Seq<char>) -> bool {
    forall|i: int| 0 <= i < v.len() ==> #[trigger] v[i] != '"'
}

pub open spec fn header_clean_inv(st: HeaderState) -> bool {
    &&& (st.phase is InIdentifier || st.phase is WaitingEquals || st.phase is WaitingValue
        || st.phase is InValueInQuotes) ==> (st.identifier matches Some(id) && clean_key(id))
    &&& st.phase is InValueInQuotes ==> (st.value matches Some(v) && clean_value(v))
    &&& forall|k: Seq<char>| #[trigger] st.map.dom().contains(k) ==> clean_key(k) && clean_value(
        st.map[k],
    )
}

proof fn lemma_header_run_clean(s: Seq<char>)
    ensures
        header_run(s) matches Ok(st) ==> header_clean_inv(st),
    decreases s.len(),
{
    if s.len() > 0 {
        lemma_header_run_clean(s.drop_last());
        if let Ok(st) = header_run(s.drop_last()) {
            let c = s.last();
            if let Ok(st2) = header_step(st, c) {
                match st.phase {
                    HeaderPhase::WaitingIdentifier => {
                        if !is_white_space(c) {
                            assert(seq![c][0] == c);
                        }
                    },
                    HeaderPhase::InIdentifier => {
                        if !is_white_space(c) && c != '=' {
                            let id = st.identifier.unwrap();
                            assert forall|i: int| 0 <= i < id.push(c).len() implies !is_white_space(
                                #[trigger] id.push(c)[i],
                            ) by {
                                if i < id.len() {
                                    assert(id.push(c)[i] == id[i]);
                                }
                            }
                        }
                    },
                    HeaderPhase::InValueInQuotes => {
                        if c != '"' {
                            let v = st.value.unwrap();
                            assert forall|i: int| 0 <= i < v.push(c).len() implies #[trigger] v.push(
                                c,
                            )[i] != '"' by {
                                if i < v.len() {
                                    assert(v.push(c)[i] == v[i]);
                                }
                            }
                        }
                    },
                    _ => {},
                }
            }
        }
    }
}

/// Every attribute that a start tag yields has a name that is not empty and holds no
/// white space, and a value that holds no double quote.
pub proof fn lemma_header_entries_clean(s: Seq<char>)
    ensures
        parse_header_spec(s) matches Ok(m) ==> forall|k: Seq<char>| #[trigger] m.dom().contains(k)
            ==> clean_key(k) && clean_value(m[k]),
{
    lemma_header_run_clean(s);
}

/// The characters `t` read by the reader from the state `st`, or the first error.
pub open spec fn header_run_from(st: HeaderState, t: Seq<char>) -> Result<HeaderState, StationError>
    decreases t.len(),
{
    if t.len() == 0 {
        Ok(st)
    } else {
        match header_run_from(st, t.drop_last()) {
            Ok(x) => header_step(x, t.last()),
            Err(e) => Err(e),
        }
    }
}

proof fn lemma_run_from_concat(st: HeaderState, a: Seq<char>, b: Seq<char>)
    ensures
        header_run_from(st, a + b) == match header_run_from(st, a) {
            Ok(x) => header_run_from(x, b),
            Err(e) => Err(e),
        },
    decreases b.len(),
{
    if b.len() == 0 {
        assert(a + b =~= a);
    } else {
        assert((a + b).drop_last() =~= a + b.drop_last());
        assert((a + b).last() == b.last());
        lemma_run_from_concat(st, a, b.drop_last());
        match header_run_from(st, a) {
            Ok(x) => {},
            Err(e) => {},
        }
    }
}

proof fn lemma_run_is_run_from(s: Seq<char>)
    ensures
        header_run(s) == header_run_from(header_start(), s),
    decreases s.len(),
{
    if s.len() > 0 {
        lemma_run_is_run_from(s.drop_last());
    }
}

/// An attribute name that a written start tag reads back: not empty, without white
/// space and without `=`.
pub open spec fn writable_key(k: Seq<char>) -> bool {
    clean_key(k) && forall|i: int| 0 <= i < k.len() ==> #[trigger] k[i] != '='
}

/// A tag name that a written start tag reads back: without white space.
pub open spec fn writable_name(name: Seq<char>) -> bool {
    forall|i: int| 0 <= i < name.len() ==> !is_white_space(#[trigger] name[i])
}

/// The attributes `kvs` written after a tag name: ` key="value"` for each, in order.
pub open spec fn written_attributes(kvs: Seq<(Seq<char>, Seq<char>)>) -> Seq<char>
    decreases kvs.len(),
{
    if kvs.len() == 0 {
        Seq::empty()
    } else {
        written_attributes(kvs.drop_last()) + " "@ + kvs.last().0 + "=\""@ + kvs.last().1 + "\""@
    }
}

/// The map of the attributes `kvs`: a repeated key keeps its last value.
pub open spec fn attributes_map(kvs: Seq<(Seq<char>, Seq<char>)>) -> Map<Seq<char>, Seq<char>>
    decreases kvs.len(),
{
    if kvs.len() == 0 {
        Map::empty()
    } else {
        attributes_map(kvs.drop_last()).insert(kvs.last().0, kvs.last().1)
    }
}

proof fn lemma_name_chars(name: Seq<char>)
    requires
        writable_name(name),
    ensures
        header_run_from(header_start(), name) == Ok::<HeaderState, StationError>(header_start()),
    decreases name.len(),
{
    if name.len() > 0 {
        lemma_name_chars(name.drop_last());
        assert(!is_white_space(name[name.len() - 1]));
    }
}

proof fn lemma_identifier_chars(st: HeaderState, id: Seq<char>, k: Seq<char>)
    requires
        st.phase is InIdentifier,
        st.identifier == Some(id),
        forall|i: int| 0 <= i < k.len() ==> !is_white_space(#[trigger] k[i]) && k[i] != '=',
    ensures
        header_run_from(st, k) == Ok::<HeaderState, StationError>(
            HeaderState { identifier: Some(id + k), ..st },
        ),
    decreases k.len(),
{
    if k.len() == 0 {
        assert(id + k =~= id);
    } else {
        lemma_identifier_chars(st, id, k.drop_last());
        assert(!is_white_space(k[k.len() - 1]) && k[k.len() - 1] != '=');
        assert((id + k.drop_last()).push(k.last()) =~= id + k);
    }
}

proof fn lemma_value_chars(st: HeaderState, v0: Seq<char>, v: Seq<char>)
    requires
        st.phase is InValueInQuotes,
        st.value == Some(v0),
        clean_value(v),
    ensures
        header_run_from(st, v) == Ok::<HeaderState, StationError>(
            HeaderState { value: Some(v0 + v), ..st },
        ),
    decreases v.len(),
{
    if v.len() == 0 {
        assert(v0 + v =~= v0);
    } else {
        lemma_value_chars(st, v0, v.drop_last());
        assert(v[v.len() - 1] != '"');
        assert((v0 + v.drop_last()).push(v.last()) =~= v0 + v);
    }
}

proof fn lemma_one_char(st: HeaderState, c: char)
    ensures
        header_run_from(st, seq![c]) == header_step(st, c),
{
    assert(seq![c].drop_last() =~= Seq::<char>::empty());
    assert(seq![c].last() == c);
    assert(header_run_from(st, Seq::<char>::empty()) == Ok::<HeaderState, StationError>(st));
}

/// One attribute `key="value"`, after the white-space character `sep`, read from a state
/// between attributes.
proof fn lemma_one_attribute(st: HeaderState, sep: char, k: Seq<char>, v: Seq<char>)
    requires
        st.phase is InName || st.phase is WaitingIdentifier,
        is_white_space(sep),
        writable_key(k),
        clean_value(v),
    ensures
        header_run_from(st, seq![sep] + k + "=\""@ + v + "\""@) == Ok::<HeaderState, StationError>(
            HeaderState {
                phase: HeaderPhase::WaitingIdentifier,
                identifier: None,
                value: None,
                map: st.map.insert(k, v),
            },
        ),
{
    reveal_strlit("=\"");
    reveal_strlit("\"");
    assert(!is_white_space('='));
    assert(!is_white_space('"'));
    let k0 = k[0];
    assert(!is_white_space(k0) && k0 != '=');
    let krest = k.drop_first();
    assert(seq![k0] + krest =~= k);
    let s1 = seq![sep];
    // after the separator
    lemma_one_char(st, sep);
    let a = HeaderState { phase: HeaderPhase::WaitingIdentifier, ..st };
    assert(header_run_from(st, s1) == Ok::<HeaderState, StationError>(a));
    // the first character of the key
    lemma_one_char(a, k0);
    let b = HeaderState { phase: HeaderPhase::InIdentifier, identifier: Some(seq![k0]), ..a };
    assert(header_run_from(a, seq![k0]) == Ok::<HeaderState, StationError>(b));
    // the rest of the key
    assert forall|i: int| 0 <= i < krest.len() implies !is_white_space(#[trigger] krest[i])
        && krest[i] != '=' by {
        assert(krest[i] == k[i + 1]);
    }
    lemma_identifier_chars(b, seq![k0], krest);
    let c = HeaderState { identifier: Some(k), ..b };
    // `="`
    let eq = "=\""@;
    assert(eq =~= seq!['=', '"']);
    assert(eq =~= seq!['='] + seq!['"']);
    lemma_one_char(c, '=');
    let d = HeaderState { phase: HeaderPhase::WaitingValue, ..c };
    lemma_one_char(d, '"');
    let e = HeaderState { phase: HeaderPhase::InValueInQuotes, value: Some(Seq::empty()), ..d };
    lemma_run_from_concat(c, seq!['='], seq!['"']);
    assert(header_run_from(c, eq) == Ok::<HeaderState, StationError>(e));
    // the value
    lemma_value_chars(e, Seq::empty(), v);
    assert(Seq::<char>::empty() + v =~= v);
    let f = HeaderState { value: Some(v), ..e };
    // the closing quote
    let q = "\""@;
    assert(q =~= seq!['"']);
    lemma_one_char(f, '"');
    // put the pieces together
    lemma_run_from_concat(st, s1, seq![k0]);
    lemma_run_from_concat(st, s1 + seq![k0], krest);
    assert(s1 + seq![k0] + krest =~= s1 + k);
    lemma_run_from_concat(st, s1 + k, eq);
    lemma_run_from_concat(st, s1 + k + eq, v);
    lemma_run_from_concat(st, s1 + k + eq + v, q);
}

/// A start tag written from a tag name without white space and attributes whose names
/// are not empty and hold neither white space nor `=`, and whose values hold no double
/// quote, reads back as the map of those attributes; a repeated name keeps its last
/// value.
pub proof fn lemma_written_header_reads_back(name: Seq<char>, kvs: Seq<(Seq<char>, Seq<char>)>)
    requires
        writable_name(name),
        forall|i: int| 0 <= i < kvs.len() ==> writable_key(#[trigger] kvs[i].0) && clean_value(
            kvs[i].1,
        ),
    ensures
        parse_header_spec(name + written_attributes(kvs)) == Ok::<
            Map<Seq<char>, Seq<char>>,
            StationError,
        >(attributes_map(kvs)),
    decreases kvs.len(),
{
    lemma_attributes_state(name, kvs);
    lemma_run_is_run_from(name + written_attributes(kvs));
}

proof fn lemma_attributes_state(name: Seq<char>, kvs: Seq<(Seq<char>, Seq<char>)>)
    requires
        writable_name(name),
        forall|i: int| 0 <= i < kvs.len() ==> writable_key(#[trigger] kvs[i].0) && clean_value(
            kvs[i].1,
        ),
    ensures
        header_run_from(header_start(), name + written_attributes(kvs)) matches Ok(st) && st.map
            == attributes_map(kvs) && (st.phase is InName || st.phase is WaitingIdentifier),
    decreases kvs.len(),
{
    if kvs.len() == 0 {
        assert(name + written_attributes(kvs) =~= name);
        lemma_name_chars(name);
    } else {
        let init = kvs.drop_last();
        assert forall|i: int| 0 <= i < init.len() implies writable_key(#[trigger] init[i].0)
            && clean_value(init[i].1) by {
            assert(init[i] == kvs[i]);
        }
        lemma_attributes_state(name, init);
        let (k, v) = kvs.last();
        assert(writable_key(kvs[kvs.len() - 1].0) && clean_value(kvs[kvs.len() - 1].1));
        let one = " "@ + k + "=\""@ + v + "\""@;
        reveal_strlit(" ");
        assert(" "@ =~= seq![' ']);
        assert(is_white_space(' '));
        assert(name + written_attributes(kvs) =~= (name + written_attributes(init)) + one);
        lemma_run_from_concat(header_start(), name + written_attributes(init), one);
        let st = header_run_from(header_start(), name + written_attributes(init))->Ok_0;
        lemma_one_attribute(st, ' ', k, v);
    }
}

/// The attributes `kvs` written after a tag name, each after its own white-space
/// character `seps[i]`: `sep key="value"` for each, in order.
pub open spec fn written_attributes_with(
    kvs: Seq<(Seq<char>, Seq<char>)>,
    seps: Seq<char>,
) -> Seq<char>
    decreases kvs.len(),
{
    if kvs.len() == 0 {
        Seq::empty()
    } else {
        written_attributes_with(kvs.drop_last(), seps.drop_last()) + seq![seps.last()]
            + kvs.last().0 + "=\""@ + kvs.last().1 + "\""@
    }
}

/// A start tag whose name and attributes are separated by any white-space characters
/// (spaces, tabs, line breaks and the other Unicode white space) reads back as the map of
/// its attributes, as with single spaces; a repeated name keeps its last value.
pub proof fn lemma_header_reads_back_with_any_white_space(
    name: Seq<char>,
    kvs: Seq<(Seq<char>, Seq<char>)>,
    seps: Seq<char>,
)
    requires
        writable_name(name),
        seps.len() == kvs.len(),
        forall|i: int| 0 <= i < seps.len() ==> is_white_space(#[trigger] seps[i]),
        forall|i: int| 0 <= i < kvs.len() ==> writable_key(#[trigger] kvs[i].0) && clean_value(
            kvs[i].1,
        ),
    ensures
        parse_header_spec(name + written_attributes_with(kvs, seps)) == Ok::<
            Map<Seq<char>, Seq<char>>,
            StationError,
        >(attributes_map(kvs)),
{
    lemma_attributes_state_with(name, kvs, seps);
    lemma_run_is_run_from(name + written_attributes_with(kvs, seps));
}

proof fn lemma_attributes_state_with(
    name: Seq<char>,
    kvs: Seq<(Seq<char>, Seq<char>)>,
    seps: Seq<char>,
)
    requires
        writable_name(name),
        seps.len() == kvs.len(),
        forall|i: int| 0 <= i < seps.len() ==> is_white_space(#[trigger] seps[i]),
        forall|i: int| 0 <= i < kvs.len() ==> writable_key(#[trigger] kvs[i].0) && clean_value(
            kvs[i].1,
        ),
    ensures
        header_run_from(header_start(), name + written_attributes_with(kvs, seps)) matches Ok(st)
            && st.map == attributes_map(kvs) && (st.phase is InName || st.phase is WaitingIdentifier),
    decreases kvs.len(),
{
    if kvs.len() == 0 {
        assert(name + written_attributes_with(kvs, seps) =~= name);
        lemma_name_chars(name);
    } else {
        let init = kvs.drop_last();
        let sinit = seps.drop_last();
        assert forall|i: int| 0 <= i < init.len() implies writable_key(#[trigger] init[i].0)
            && clean_value(init[i].1) by {
            assert(init[i] == kvs[i]);
        }
        assert forall|i: int| 0 <= i < sinit.len() implies is_white_space(#[trigger] sinit[i]) by {
            assert(sinit[i] == seps[i]);
        }
        lemma_attributes_state_with(name, init, sinit);
        let (k, v) = kvs.last();
        let sep = seps.last();
        assert(is_white_space(seps[seps.len() - 1]));
        assert(writable_key(kvs[kvs.len() - 1].0) && clean_value(kvs[kvs.len() - 1].1));
        let one = seq![sep] + k + "=\""@ + v + "\""@;
        assert(name + written_attributes_with(kvs, seps) =~= (name + written_attributes_with(
            init,
            sinit,
        )) + one);
        lemma_run_from_concat(header_start(), name + written_attributes_with(init, sinit), one);
        let st = header_run_from(header_start(), name + written_attributes_with(init, sinit))->Ok_0;
        lemma_one_attribute(st, sep, k, v);
    }
}

pub open spec fn opt_view(o: Option<String>) -> Option<Seq<char>> {
    match o {
        Some(s) => Some(s@),
        None => None,
    }
}

proof fn lemma_header_run_err_fixed(s: Seq<char>, i: int)
    requires
        0 <= i <= s.len(),
        header_run(s.take(i)) is Err,
    ensures
        header_run(s) == header_run(s.take(i)),
    decreases s.len() - i,
{
    if i < s.len() {
        assert(s.take(i + 1).drop_last() =~= s.take(i));
        lemma_header_run_err_fixed(s, i + 1);
    } else {
        assert(s.take(i) =~= s);
    }
}

fn string_of_char(c: char) -> (s: String)
    ensures
        s@ == seq![c],
{
    let mut s = String::new();
    string_push(&mut s, c);
    assert(s@ =~= seq![c]);
    s
}

/// Reads the attribute list of the start tag `header`: after the tag's name, each
/// attribute is an identifier, `=` and a value in double quotes, with white space
/// allowed around the `=`; a later attribute of the same name replaces an earlier one.
pub fn parse_header(header: &str) -> (res: Result<HeaderMap, StationError>)
    ensures
        res matches Ok(m) ==> m.wf() && parse_header_spec(header@) == Ok::<
            Map<Seq<char>, Seq<char>>,
            StationError,
        >(m@),
        res matches Err(e) ==> parse_header_spec(header@) == Err::<
            Map<Seq<char>, Seq<char>>,
            StationError,
        >(e),
{
    let mut parse_state = HeaderPhase::InName;
    let mut current_identifier: Option<String> = Some(String::new());
    let mut current_value: Option<String> = Some(String::new());
    let mut header_map = HeaderMap::new();
    let n = header.unicode_len();
    let ghost text = header@;
    let mut i: usize = 0;
    assert(text.take(0) =~= Seq::<char>::empty());
    assert(opt_view(current_identifier) =~= Some(Seq::<char>::empty()));
    assert(opt_view(current_value) =~= Some(Seq::<char>::empty()));
    while i < n
        invariant
            n == text.len(),
            text == header@,
            i <= n,
            header_map.wf(),
            header_run(text.take(i as int)) == Ok::<HeaderState, StationError>(
                HeaderState {
                    phase: parse_state,
                    identifier: opt_view(current_identifier),
                    value: opt_view(current_value),
                    map: header_map@,
                },
            ),
        decreases n - i,
    {
        let c = header.get_char(i);
        let ghost st = HeaderState {
            phase: parse_state,
            identifier: opt_view(current_identifier),
            value: opt_view(current_value),
            map: header_map@,
        };
        proof {
            lemma_header_run_inv(text.take(i as int));
            assert(text.take(i + 1).drop_last() =~= text.take(i as int));
            assert(text.take(i + 1).last() == c);
        }
        let ws = char_is_whitespace(c);
        match parse_state {
            HeaderPhase::InName => {
                if ws {
                    parse_state = HeaderPhase::WaitingIdentifier;
                }
            },
            HeaderPhase::WaitingIdentifier => {
                if !ws {
                    current_identifier = Some(string_of_char(c));
                    parse_state = HeaderPhase::InIdentifier;
                }
            },
            HeaderPhase::InIdentifier => {
                if !ws {
                    if c == '=' {
                        parse_state = HeaderPhase::WaitingValue;
                    } else {
                        let mut id = current_identifier.take().unwrap();
                        string_push(&mut id, c);
                        current_identifier = Some(id);
                    }
                } else {
                    parse_state = HeaderPhase::WaitingEquals;
                }
            },
            HeaderPhase::WaitingEquals => {
                if !ws {
                    if c == '=' {
                        parse_state = HeaderPhase::WaitingValue;
                    } else {
                        proof {
                            lemma_header_run_err_fixed(text, i + 1);
                        }
                        return Err(
                            StationError::InvalidNameSyntax(
                                NameSyntaxError::ExpectedEquals { got: c },
                            ),
                        );
                    }
                }
            },
            HeaderPhase::WaitingValue => {
                if !ws {
                    if c == '"' {
                        parse_state = HeaderPhase::InValueInQuotes;
                        current_value = Some(String::new());
                        assert(opt_view(current_value) =~= Some(Seq::<char>::empty()));
                    } else {
                        proof {
                            lemma_header_run_err_fixed(text, i + 1);
                        }
                        return Err(StationError::NeedNameQuotes);
                    }
                }
            },
            HeaderPhase::InValueInQuotes => {
                if c == '"' {
                    parse_state = HeaderPhase::WaitingIdentifier;
                    let identifier = match current_identifier.take() {
                        Some(id) => id,
                        None => {
                            proof {
                                lemma_header_run_err_fixed(text, i + 1);
                            }
                            return Err(
                                StationError::InvalidNameSyntax(NameSyntaxError::NoIdentifierFound),
                            );
                        },
                    };
                    let value = match current_value.take() {
                        Some(v) => v,
                        None => {
                            proof {
                                lemma_header_run_err_fixed(text, i + 1);
                            }
                            return Err(
                                StationError::InvalidNameSyntax(NameSyntaxError::NoValueFound),
                            );
                        },
                    };
                    header_map.insert(identifier, value);
                } else {
                    let mut v = current_value.take().unwrap();
                    string_push(&mut v, c);
                    current_value = Some(v);
                }
            },
        }
        i = i + 1;
    }
    assert(text.take(n as int) =~= text);
    Ok(header_map)
}

} // verus!
