//! miniSEED sample types and FDSN source identifiers.
use crate::text::{str_chars, string_from_chars};
use vstd::prelude::*;

verus! {

/// The type of the samples of a miniSEED record.
#[derive(Clone, Copy, Debug, PartialEq, Eq, Structural)]
pub enum SampleType {
    TEXT,
    I32,
    F32,
    F64,
}

/// The codes of the sample types: `t`, `i`, `f`, `d`.
pub open spec fn is_sample_type_code(value: i8) -> bool {
    value == 116 || value == 105 || value == 102 || value == 100
}

/// Whether `SampleType::from` may be called on `value`.
pub fn sample_type_code_known(value: i8) -> (r: bool)
    ensures
        r == is_sample_type_code(value),
{
    value == 116 || value == 105 || value == 102 || value == 100
}

impl SampleType {
    /// The sample type of a record's type code.
    pub fn from(value: i8) -> (res: SampleType)
        requires
            is_sample_type_code(value),
        ensures
            value == 116 ==> res == SampleType::TEXT,
            value == 105 ==> res == SampleType::I32,
            value == 102 ==> res == SampleType::F32,
            value == 100 ==> res == SampleType::F64,
    {
        if value == 116 {
            SampleType::TEXT
        } else if value == 105 {
            SampleType::I32
        } else if value == 102 {
            SampleType::F32
        } else {
            SampleType::F64
        }
    }
}

/// The pieces of `s` between the separators `sep`, as `str::split` gives them.
pub open spec fn split_pieces(s: Seq<char>, sep: char) -> Seq<Seq<char>>
    decreases s.len(),
{
    if s.len() == 0 {
        seq![Seq::empty()]
    } else {
        let prev = split_pieces(s.drop_last(), sep);
        if s.last() == sep {
            prev.push(Seq::empty())
        } else {
            prev.update(prev.len() - 1, prev.last().push(s.last()))
        }
    }
}

pub proof fn lemma_split_pieces_nonempty(s: Seq<char>, sep: char)
    ensures
        split_pieces(s, sep).len() >= 1,
    decreases s.len(),
{
    if s.len() > 0 {
        lemma_split_pieces_nonempty(s.drop_last(), sep);
    }
}

pub open spec fn trim_start_nul(p: Seq<char>) -> Seq<char>
    decreases p.len(),
{
    if p.len() > 0 && p[0] == '\0' {
        trim_start_nul(p.skip(1))
    } else {
        p
    }
}

pub open spec fn trim_end_nul(p: Seq<char>) -> Seq<char>
    decreases p.len(),
{
    if p.len() > 0 && p.last() == '\0' {
        trim_end_nul(p.drop_last())
    } else {
        p
    }
}

/// `p` without the NUL characters at either end.
pub open spec fn trim_nul(p: Seq<char>) -> Seq<char> {
    trim_end_nul(trim_start_nul(p))
}

/// The pieces `ps`, each trimmed of NULs, joined.
pub open spec fn join_trimmed(ps: Seq<Seq<char>>) -> Seq<char>
    decreases ps.len(),
{
    if ps.len() == 0 {
        Seq::empty()
    } else {
        join_trimmed(ps.drop_last()) + trim_nul(ps.last())
    }
}

/// The pieces after the location: those that name the channel.
pub open spec fn channel_pieces(ps: Seq<Seq<char>>) -> Seq<Seq<char>> {
    if ps.len() >= 3 {
        ps.skip(3)
    } else {
        Seq::empty()
    }
}

/// The part of a source identifier after the namespace: `NET_STA_LOC_B_S_S`.
pub open spec fn sid_body(s: Seq<char>) -> Seq<char> {
    split_pieces(s, ':')[1]
}

/// The identifier names a namespace and then at least a network and a station.
pub open spec fn sid_well_formed(s: Seq<char>) -> bool {
    split_pieces(s, ':').len() >= 2 && split_pieces(sid_body(s), '_').len() >= 2
}

/// Network, station and channel codes of an FDSN source identifier.
pub struct SidParts {
    pub network: String,
    pub station: String,
    pub channel: String,
}

pub open spec fn char_seqs(v: Seq<Vec<char>>) -> Seq<Seq<char>> {
    v.map_values(|x: Vec<char>| x@)
}

fn split_chars(s: &Vec<char>, sep: char) -> (res: Vec<Vec<char>>)
    ensures
        char_seqs(res@) == split_pieces(s@, sep),
{
    let mut res: Vec<Vec<char>> = Vec::new();
    res.push(Vec::new());
    let mut i: usize = 0;
    assert(s@.take(0) =~= Seq::<char>::empty());
    assert(char_seqs(res@) =~= split_pieces(s@.take(0), sep)) by {
        assert(res@[0]@ =~= Seq::<char>::empty());
    }
    while i < s.len()
        invariant
            i <= s@.len(),
            res@.len() >= 1,
            char_seqs(res@) == split_pieces(s@.take(i as int), sep),
        decreases s@.len() - i,
    {
        let c = s[i];
        let ghost prev = char_seqs(res@);
        assert(s@.take(i + 1).drop_last() =~= s@.take(i as int));
        if c == sep {
            let e: Vec<char> = Vec::new();
            assert(e@ =~= Seq::<char>::empty());
            res.push(e);
            assert(char_seqs(res@) =~= prev.push(Seq::<char>::empty()));
        } else {
            let mut last = res.pop().unwrap();
            last.push(c);
            res.push(last);
            assert(char_seqs(res@) =~= prev.update(prev.len() - 1, prev.last().push(c)));
        }
        i = i + 1;
    }
    assert(s@.take(s@.len() as int) =~= s@);
    res
}

fn trim_nul_chars(p: &Vec<char>) -> (r: Vec<char>)
    ensures
        r@ == trim_nul(p@),
{
    let n = p.len();
    let mut a: usize = 0;
    assert(p@.subrange(0, n as int) =~= p@);
    while a < n && p[a] == '\0'
        invariant
            a <= n == p@.len(),
            trim_start_nul(p@) == trim_start_nul(p@.subrange(a as int, n as int)),
        decreases n - a,
    {
        assert(p@.subrange(a as int, n as int).skip(1) =~= p@.subrange(a + 1, n as int));
        a = a + 1;
    }
    let ghost q = p@.subrange(a as int, n as int);
    assert(trim_start_nul(q) == q);
    let mut b: usize = n;
    assert(q.take((b - a) as int) =~= q);
    while b > a && p[b - 1] == '\0'
        invariant
            a <= b <= n == p@.len(),
            q == p@.subrange(a as int, n as int),
            trim_end_nul(q) == trim_end_nul(q.take((b - a) as int)),
        decreases b - a,
    {
        assert(q.take((b - a) as int).drop_last() =~= q.take((b - 1 - a) as int));
        b = b - 1;
    }
    let mut r: Vec<char> = Vec::new();
    let mut k: usize = a;
    while k < b
        invariant
            a <= k <= b <= n == p@.len(),
            r@ == p@.subrange(a as int, k as int),
        decreases b - k,
    {
        r.push(p[k]);
        k = k + 1;
        assert(r@ =~= p@.subrange(a as int, k as int));
    }
    assert(r@ =~= q.take((b - a) as int));
    r
}

/// Whether `SidParts::from_sid` may be called on `s`.
pub fn sid_is_well_formed(s: &str) -> (r: bool)
    ensures
        r == sid_well_formed(s@),
{
    let chars = str_chars(s);
    let by_colon = split_chars(&chars, ':');
    if by_colon.len() < 2 {
        return false;
    }
    let pieces = split_chars(&by_colon[1], '_');
    proof {
        assert(char_seqs(by_colon@)[1] == by_colon@[1]@);
    }
    pieces.len() >= 2
}

impl SidParts {
    /// The codes in a source identifier `NS:NET_STA_LOC_B_S_S`: the network and station
    /// are the first two pieces after the namespace, the channel is the pieces after
    /// the location joined, each without NULs at its ends.
    pub fn from_sid(s: &str) -> (res: SidParts)
        requires
            sid_well_formed(s@),
        ensures
            res.network@ == split_pieces(sid_body(s@), '_')[0],
            res.station@ == split_pieces(sid_body(s@), '_')[1],
            res.channel@ == join_trimmed(channel_pieces(split_pieces(sid_body(s@), '_'))),
    {
        let chars = str_chars(s);
        let by_colon = split_chars(&chars, ':');
        let after = &by_colon[1];
        let pieces = split_chars(after, '_');
        proof {
            lemma_split_pieces_nonempty(chars@, ':');
            assert(char_seqs(by_colon@)[1] == by_colon@[1]@);
            assert(char_seqs(pieces@)[0] == pieces@[0]@);
            assert(char_seqs(pieces@)[1] == pieces@[1]@);
        }
        let network = string_from_chars(&pieces[0]);
        let station = string_from_chars(&pieces[1]);
        let mut channel_chars: Vec<char> = Vec::new();
        let ghost rest = channel_pieces(char_seqs(pieces@));
        let mut k: usize = 3;
        assert(rest.take(0) =~= Seq::<Seq<char>>::empty());
        while k < pieces.len()
            invariant
                3 <= k,
                pieces@.len() >= 2,
                rest == channel_pieces(char_seqs(pieces@)),
                k <= pieces@.len() || pieces@.len() < 3,
                k <= pieces@.len() ==> channel_chars@ == join_trimmed(rest.take(k - 3)),
                pieces@.len() < 3 ==> channel_chars@.len() == 0,
            decreases pieces@.len() - k,
        {
            let mut t = trim_nul_chars(&pieces[k]);
            let ghost before = channel_chars@;
            let ghost tv = t@;
            channel_chars.append(&mut t);
            assert(rest.take(k - 2).drop_last() =~= rest.take(k - 3));
            assert(rest.take(k - 2).last() == pieces@[k as int]@);
            assert(channel_chars@ =~= before + tv);
            k = k + 1;
        }
        proof {
            if pieces@.len() >= 3 {
                assert(rest.take(pieces@.len() - 3) =~= rest);
            } else {
                assert(rest =~= Seq::<Seq<char>>::empty());
                assert(channel_chars@ =~= join_trimmed(rest));
            }
        }
        let channel = string_from_chars(&channel_chars);
        SidParts { network, station, channel }
    }
}

} // verus!
