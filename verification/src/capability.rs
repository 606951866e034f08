//! The capabilities a client announces to the server during the handshake.
//!
//! A `Capability` is one advertised feature; `Capabilities` is the ordered
//! list sent as a comma-joined string. Two capabilities count as the same
//! entry when they are the same variant, whatever value they carry, and the
//! list keeps at most one entry of each variant: adding again removes the
//! earlier entry and appends the new one at the end.

use vstd::prelude::*;
use vstd::string::StringExecFns;
use crate::wire::dec_chars;

verus! {

/// A client capability as recognised by the server.
#[derive(Debug)]
pub enum Capability {
    Wma,
    Wmap,
    Wmal,
    Ogg,
    Flc,
    Pcm,
    Aif,
    Mp3,
    Alc,
    Aac,
    Maxsamplerate(u32),
    Model(String),
    Modelname(String),
    Rhap,
    Accurateplaypoints,
    Syncgroupid(String),
    Hasdigitalout,
    Haspreamp,
    Hasdisabledac,
    Firmware(String),
    Balance,
}

/// Which variant a capability is; payloads are ignored.
pub open spec fn cap_kind(c: Capability) -> int {
    match c {
        Capability::Wma => 0,
        Capability::Wmap => 1,
        Capability::Wmal => 2,
        Capability::Ogg => 3,
        Capability::Flc => 4,
        Capability::Pcm => 5,
        Capability::Aif => 6,
        Capability::Mp3 => 7,
        Capability::Alc => 8,
        Capability::Aac => 9,
        Capability::Maxsamplerate(_) => 10,
        Capability::Model(_) => 11,
        Capability::Modelname(_) => 12,
        Capability::Rhap => 13,
        Capability::Accurateplaypoints => 14,
        Capability::Syncgroupid(_) => 15,
        Capability::Hasdigitalout => 16,
        Capability::Haspreamp => 17,
        Capability::Hasdisabledac => 18,
        Capability::Firmware(_) => 19,
        Capability::Balance => 20,
    }
}

/// The text a capability contributes to the handshake string.
pub open spec fn cap_chars(c: Capability) -> Seq<char> {
    match c {
        Capability::Wma => "wma"@,
        Capability::Wmap => "wmap"@,
        Capability::Wmal => "wmal"@,
        Capability::Ogg => "ogg"@,
        Capability::Flc => "flc"@,
        Capability::Pcm => "pcm"@,
        Capability::Aif => "aif"@,
        Capability::Mp3 => "mp3"@,
        Capability::Alc => "alc"@,
        Capability::Aac => "aac"@,
        Capability::Maxsamplerate(v) => "MaxSampleRate="@ + dec_chars(v as int),
        Capability::Model(v) => "Model="@ + v@,
        Capability::Modelname(v) => "Modelname="@ + v@,
        Capability::Rhap => "Rhap"@,
        Capability::Accurateplaypoints => "AccuratePlayPoints=1"@,
        Capability::Syncgroupid(v) => "SyncgroupID="@ + v@,
        Capability::Hasdigitalout => "HasDigitalOut=1"@,
        Capability::Haspreamp => "HasPreAmp=1"@,
        Capability::Hasdisabledac => "HasDisableDac=1"@,
        Capability::Firmware(v) => "Firmware="@ + v@,
        Capability::Balance => "Balance=1"@,
    }
}

impl Capability {
    /// The text this capability contributes to the handshake string:
    /// `name` for a flag, `name=value` for a valued capability.
    pub fn to_text(&self) -> (r: String)
        ensures
            r@ == cap_chars(*self),
    {
        match self {
            Capability::Wma => "wma".to_owned(),
            Capability::Wmap => "wmap".to_owned(),
            Capability::Wmal => "wmal".to_owned(),
            Capability::Ogg => "ogg".to_owned(),
            Capability::Flc => "flc".to_owned(),
            Capability::Pcm => "pcm".to_owned(),
            Capability::Aif => "aif".to_owned(),
            Capability::Mp3 => "mp3".to_owned(),
            Capability::Alc => "alc".to_owned(),
            Capability::Aac => "aac".to_owned(),
            Capability::Maxsamplerate(v) => {
                let mut s = "MaxSampleRate=".to_owned();
                let d = crate::wire::u32_dec_string(*v);
                s.append(d.as_str());
                s
            },
            Capability::Model(v) => {
                let mut s = "Model=".to_owned();
                s.append(v.as_str());
                s
            },
            Capability::Modelname(v) => {
                let mut s = "Modelname=".to_owned();
                s.append(v.as_str());
                s
            },
            Capability::Rhap => "Rhap".to_owned(),
            Capability::Accurateplaypoints => "AccuratePlayPoints=1".to_owned(),
            Capability::Syncgroupid(v) => {
                let mut s = "SyncgroupID=".to_owned();
                s.append(v.as_str());
                s
            },
            Capability::Hasdigitalout => "HasDigitalOut=1".to_owned(),
            Capability::Haspreamp => "HasPreAmp=1".to_owned(),
            Capability::Hasdisabledac => "HasDisableDac=1".to_owned(),
            Capability::Firmware(v) => {
                let mut s = "Firmware=".to_owned();
                s.append(v.as_str());
                s
            },
            Capability::Balance => "Balance=1".to_owned(),
        }
    }

    /// Whether `self` and `other` are the same variant, payloads ignored.
    pub fn same_kind(&self, other: &Capability) -> (r: bool)
        ensures
            r == (cap_kind(*self) == cap_kind(*other)),
    {
        match (self, other) {
            (Capability::Wma, Capability::Wma) => true,
            (Capability::Wmap, Capability::Wmap) => true,
            (Capability::Wmal, Capability::Wmal) => true,
            (Capability::Ogg, Capability::Ogg) => true,
            (Capability::Flc, Capability::Flc) => true,
            (Capability::Pcm, Capability::Pcm) => true,
            (Capability::Aif, Capability::Aif) => true,
            (Capability::Mp3, Capability::Mp3) => true,
            (Capability::Alc, Capability::Alc) => true,
            (Capability::Aac, Capability::Aac) => true,
            (Capability::Maxsamplerate(_), Capability::Maxsamplerate(_)) => true,
            (Capability::Model(_), Capability::Model(_)) => true,
            (Capability::Modelname(_), Capability::Modelname(_)) => true,
            (Capability::Rhap, Capability::Rhap) => true,
            (Capability::Accurateplaypoints, Capability::Accurateplaypoints) => true,
            (Capability::Syncgroupid(_), Capability::Syncgroupid(_)) => true,
            (Capability::Hasdigitalout, Capability::Hasdigitalout) => true,
            (Capability::Haspreamp, Capability::Haspreamp) => true,
            (Capability::Hasdisabledac, Capability::Hasdisabledac) => true,
            (Capability::Firmware(_), Capability::Firmware(_)) => true,
            (Capability::Balance, Capability::Balance) => true,
            _ => false,
        }
    }

    /// A copy of this capability: same variant, same text.
    pub fn duplicate(&self) -> (r: Capability)
        ensures
            cap_kind(r) == cap_kind(*self),
            cap_chars(r) == cap_chars(*self),
    {
        match self {
            Capability::Wma => Capability::Wma,
            Capability::Wmap => Capability::Wmap,
            Capability::Wmal => Capability::Wmal,
            Capability::Ogg => Capability::Ogg,
            Capability::Flc => Capability::Flc,
            Capability::Pcm => Capability::Pcm,
            Capability::Aif => Capability::Aif,
            Capability::Mp3 => Capability::Mp3,
            Capability::Alc => Capability::Alc,
            Capability::Aac => Capability::Aac,
            Capability::Maxsamplerate(v) => Capability::Maxsamplerate(*v),
            Capability::Model(v) => Capability::Model(v.clone()),
            Capability::Modelname(v) => Capability::Modelname(v.clone()),
            Capability::Rhap => Capability::Rhap,
            Capability::Accurateplaypoints => Capability::Accurateplaypoints,
            Capability::Syncgroupid(v) => Capability::Syncgroupid(v.clone()),
            Capability::Hasdigitalout => Capability::Hasdigitalout,
            Capability::Haspreamp => Capability::Haspreamp,
            Capability::Hasdisabledac => Capability::Hasdisabledac,
            Capability::Firmware(v) => Capability::Firmware(v.clone()),
            Capability::Balance => Capability::Balance,
        }
    }
}

impl PartialEq for Capability {
    /// Capabilities compare by variant only; payloads are ignored, so that
    /// the list can replace an entry when the same variant is added again.
    fn eq(&self, other: &Self) -> (r: bool) {
        self.same_kind(other)
    }
}

impl vstd::std_specs::cmp::PartialEqSpecImpl for Capability {
    open spec fn obeys_eq_spec() -> bool {
        true
    }

    open spec fn eq_spec(&self, other: &Self) -> bool {
        cap_kind(*self) == cap_kind(*other)
    }
}

// ---------------------------------------------------------------------------
// The capability list
// ---------------------------------------------------------------------------
/// Index of the first entry of kind `k`, or -1 when there is none.
pub open spec fn find_kind(s: Seq<Capability>, k: int) -> int
    decreases s.len(),
{
    if s.len() == 0 {
        -1
    } else if cap_kind(s[0]) == k {
        0
    } else {
        let r = find_kind(s.skip(1), k);
        if r == -1 {
            -1
        } else {
            1 + r
        }
    }
}

/// How many entries of kind `k` the list holds.
pub open spec fn count_kind(s: Seq<Capability>, k: int) -> int
    decreases s.len(),
{
    if s.len() == 0 {
        0
    } else {
        (if cap_kind(s[0]) == k {
            1int
        } else {
            0int
        }) + count_kind(s.skip(1), k)
    }
}

/// What adding a capability does to the list: the earlier entry of the same
/// kind, if any, is removed, and the new entry goes at the end.
pub open spec fn spec_add(s: Seq<Capability>, c: Capability) -> Seq<Capability> {
    let i = find_kind(s, cap_kind(c));
    if i == -1 {
        s.push(c)
    } else {
        s.remove(i).push(c)
    }
}

/// The list invariant: at most one entry of each kind.
pub open spec fn caps_wf(s: Seq<Capability>) -> bool {
    forall|i: int, j: int|
        0 <= i < j < s.len() ==> cap_kind(s[i]) != cap_kind(s[j])
}

/// The comma-joined text of the whole list, in order.
pub open spec fn caps_chars(s: Seq<Capability>) -> Seq<char>
    decreases s.len(),
{
    if s.len() == 0 {
        Seq::empty()
    } else if s.len() == 1 {
        cap_chars(s[0])
    } else {
        cap_chars(s[0]) + ","@ + caps_chars(s.skip(1))
    }
}

/// A list of capabilities, sent to the server when the client announces
/// itself, in the order in which they were added.
#[derive(Debug)]
pub struct Capabilities(pub(crate) Vec<Capability>);

impl View for Capabilities {
    type V = Seq<Capability>;

    closed spec fn view(&self) -> Seq<Capability> {
        self.0@
    }
}

impl Capabilities {
    /// The empty list.
    pub fn new() -> (r: Self)
        ensures
            r@ == Seq::<Capability>::empty(),
    {
        Capabilities(Vec::new())
    }

    /// Adds a capability. An entry of the same variant already in the list
    /// is removed first, so the new entry lands at the end.
    pub fn add(&mut self, newcap: Capability)
        ensures
            final(self)@ == spec_add(old(self)@, newcap),
    {
        let ghost orig = self.0@;
        let ghost k = cap_kind(newcap);
        let n = self.0.len();
        let mut i: usize = 0;
        let mut found: bool = false;
        while i < n && !found
            invariant
                n == orig.len(),
                self.0@ == orig,
                k == cap_kind(newcap),
                i <= n,
                !found ==> forall|j: int| 0 <= j < i ==> cap_kind(orig[j]) != k,
                found ==> i < n && cap_kind(orig[i as int]) == k && forall|j: int|
                    0 <= j < i ==> cap_kind(orig[j]) != k,
            decreases n - i + (if found {
                0int
            } else {
                1int
            }),
        {
            if self.0[i].same_kind(&newcap) {
                found = true;
            } else {
                i += 1;
            }
        }
        if found {
            proof {
                lemma_find_kind_first(orig, k, i as int);
            }
            self.0.remove(i);
        } else {
            proof {
                lemma_find_kind_none(orig, k);
            }
        }
        self.0.push(newcap);
    }

    /// Adds the model name capability with the given name.
    pub fn add_name(&mut self, name: &str)
        ensures
            final(self)@.len() > 0,
            (final(self)@.last() matches Capability::Modelname(m) && m@ == name@),
            final(self)@ == spec_add(old(self)@, final(self)@.last()),
    {
        self.add(Capability::Modelname(name.to_owned()));
    }

    /// The comma-joined capability string sent in the handshake.
    pub fn to_text(&self) -> (r: String)
        ensures
            r@ == caps_chars(self@),
    {
        let mut r = String::new();
        let n = self.0.len();
        let mut i: usize = 0;
        while i < n
            invariant
                n == self.0@.len(),
                i <= n,
                r@ == caps_chars(self.0@.take(i as int)),
            decreases n - i,
        {
            if i > 0 {
                r.append(",");
            }
            let t = self.0[i].to_text();
            r.append(t.as_str());
            proof {
                lemma_caps_chars_take_step(self.0@, i as int);
            }
            i += 1;
        }
        proof {
            assert(self.0@.take(n as int) =~= self.0@);
        }
        r
    }

    /// A copy of the list: same kinds, same texts, in the same order.
    pub fn duplicate(&self) -> (r: Self)
        ensures
            r@.len() == self@.len(),
            forall|i: int|
                0 <= i < self@.len() ==> cap_kind(#[trigger] r@[i]) == cap_kind(self@[i])
                    && cap_chars(r@[i]) == cap_chars(self@[i]),
    {
        let mut v: Vec<Capability> = Vec::new();
        let n = self.0.len();
        let mut i: usize = 0;
        while i < n
            invariant
                n == self.0@.len(),
                i <= n,
                v@.len() == i,
                forall|j: int|
                    0 <= j < i ==> cap_kind(#[trigger] v@[j]) == cap_kind(self.0@[j]) && cap_chars(
                        v@[j]) == cap_chars(self.0@[j]),
            decreases n - i,
        {
            v.push(self.0[i].duplicate());
            i += 1;
        }
        Capabilities(v)
    }
}

impl Default for Capabilities {
    /// The capabilities a typical client announces.
    fn default() -> (r: Self)
        ensures
            r@.len() == 6,
            (r@[0] matches Capability::Model(m) && m@ == "squeezelite"@),
            (r@[1] matches Capability::Modelname(m) && m@ == "SqueezeLite"@),
            r@[2] is Accurateplaypoints,
            r@[3] is Hasdigitalout,
            r@[4] is Haspreamp,
            r@[5] is Hasdisabledac,
            caps_wf(r@),
    {
        let mut caps: Vec<Capability> = Vec::new();
        caps.push(Capability::Model("squeezelite".to_owned()));
        caps.push(Capability::Modelname("SqueezeLite".to_owned()));
        caps.push(Capability::Accurateplaypoints);
        caps.push(Capability::Hasdigitalout);
        caps.push(Capability::Haspreamp);
        caps.push(Capability::Hasdisabledac);
        Capabilities(caps)
    }
}

// ---------------------------------------------------------------------------
// Lemmas
// ---------------------------------------------------------------------------
proof fn lemma_find_kind_none(s: Seq<Capability>, k: int)
    requires
        forall|j: int| 0 <= j < s.len() ==> cap_kind(s[j]) != k,
    ensures
        find_kind(s, k) == -1,
    decreases s.len(),
{
    if s.len() > 0 {
        lemma_find_kind_none(s.skip(1), k);
    }
}

proof fn lemma_find_kind_first(s: Seq<Capability>, k: int, i: int)
    requires
        0 <= i < s.len(),
        cap_kind(s[i]) == k,
        forall|j: int| 0 <= j < i ==> cap_kind(s[j]) != k,
    ensures
        find_kind(s, k) == i,
    decreases s.len(),
{
    if i > 0 {
        lemma_find_kind_first(s.skip(1), k, i - 1);
    }
}

proof fn lemma_count_kind_none(s: Seq<Capability>, k: int)
    requires
        forall|j: int| 0 <= j < s.len() ==> cap_kind(s[j]) != k,
    ensures
        count_kind(s, k) == 0,
    decreases s.len(),
{
    if s.len() > 0 {
        lemma_count_kind_none(s.skip(1), k);
    }
}

proof fn lemma_count_kind_push(s: Seq<Capability>, c: Capability, k: int)
    ensures
        count_kind(s.push(c), k) == count_kind(s, k) + (if cap_kind(c) == k {
            1int
        } else {
            0int
        }),
    decreases s.len(),
{
    if s.len() == 0 {
        assert(s.push(c).skip(1) =~= s);
    } else {
        lemma_count_kind_push(s.skip(1), c, k);
        assert(s.push(c).skip(1) =~= s.skip(1).push(c));
    }
}

proof fn lemma_count_kind_remove(s: Seq<Capability>, i: int, k: int)
    requires
        0 <= i < s.len(),
    ensures
        count_kind(s.remove(i), k) == count_kind(s, k) - (if cap_kind(s[i]) == k {
            1int
        } else {
            0int
        }),
    decreases s.len(),
{
    if i == 0 {
        assert(s.remove(0) =~= s.skip(1));
    } else {
        lemma_count_kind_remove(s.skip(1), i - 1, k);
        assert(s.remove(i).skip(1) =~= s.skip(1).remove(i - 1));
        assert(s.remove(i)[0] == s[0]);
    }
}

proof fn lemma_caps_chars_take_step(s: Seq<Capability>, i: int)
    requires
        0 <= i < s.len(),
    ensures
        caps_chars(s.take(i + 1)) == if i == 0 {
            cap_chars(s[0])
        } else {
            caps_chars(s.take(i)) + ","@ + cap_chars(s[i])
        },
    decreases i,
{
    if i == 0 {
        assert(s.take(1) =~= seq![s[0]]);
        assert(caps_chars(s.take(1)) == cap_chars(s[0]));
    } else {
        lemma_caps_chars_take_step(s.skip(1), i - 1);
        assert(s.take(i + 1).skip(1) =~= s.skip(1).take(i));
        assert(s.take(i).skip(1) =~= s.skip(1).take(i - 1));
        assert(s.take(i + 1)[0] == s[0]);
        assert(s.take(i)[0] == s[0]);
        assert(s.skip(1)[i - 1] == s[i]);
        if i == 1 {
            assert(caps_chars(s.take(2)) == cap_chars(s[0]) + ","@ + caps_chars(s.skip(1).take(1)));
            assert(caps_chars(s.take(1)) == cap_chars(s[0]));
        }
    }
}

/// Adding a capability to a well-formed list leaves exactly one entry of its
/// kind, at the end, and keeps the kinds pairwise distinct.
pub proof fn lemma_add_keeps_kinds_unique(s: Seq<Capability>, c: Capability)
    requires
        caps_wf(s),
    ensures
        caps_wf(spec_add(s, c)),
        count_kind(spec_add(s, c), cap_kind(c)) == 1,
        spec_add(s, c).len() > 0,
        spec_add(s, c).last() == c,
{
    let k = cap_kind(c);
    let i = find_kind(s, k);
    lemma_find_kind_range(s, k);
    if i == -1 {
        lemma_count_kind_none_from_find(s, k);
        lemma_count_kind_push(s, c, k);
        assert forall|p: int, q: int| 0 <= p < q < s.push(c).len() implies cap_kind(s.push(c)[p])
            != cap_kind(s.push(c)[q]) by {
            if q == s.len() {
                assert(cap_kind(s[p]) != k) by {
                    lemma_find_kind_found(s, k, p);
                }
            }
        }
    } else {
        let t = s.remove(i);
        lemma_count_kind_remove(s, i, k);
        lemma_count_kind_at_most_wf(s, k, i);
        lemma_count_kind_push(t, c, k);
        assert forall|p: int, q: int| 0 <= p < q < t.push(c).len() implies cap_kind(t.push(c)[p])
            != cap_kind(t.push(c)[q]) by {
            if q == t.len() {
                let p0 = if p < i {
                    p
                } else {
                    p + 1
                };
                assert(t[p] == s[p0]);
                assert(cap_kind(s[p0]) != k);
            } else {
                let p0 = if p < i {
                    p
                } else {
                    p + 1
                };
                let q0 = if q < i {
                    q
                } else {
                    q + 1
                };
                assert(t[p] == s[p0]);
                assert(t[q] == s[q0]);
            }
        }
    }
}

proof fn lemma_find_kind_range(s: Seq<Capability>, k: int)
    ensures
        find_kind(s, k) == -1 || (0 <= find_kind(s, k) < s.len() && cap_kind(s[find_kind(s, k)])
            == k),
    decreases s.len(),
{
    if s.len() > 0 {
        lemma_find_kind_range(s.skip(1), k);
    }
}

proof fn lemma_find_kind_found(s: Seq<Capability>, k: int, j: int)
    requires
        find_kind(s, k) == -1,
        0 <= j < s.len(),
    ensures
        cap_kind(s[j]) != k,
    decreases s.len(),
{
    lemma_find_kind_range(s.skip(1), k);
    if j > 0 {
        lemma_find_kind_found(s.skip(1), k, j - 1);
    }
}

proof fn lemma_count_kind_none_from_find(s: Seq<Capability>, k: int)
    requires
        find_kind(s, k) == -1,
    ensures
        count_kind(s, k) == 0,
    decreases s.len(),
{
    if s.len() > 0 {
        lemma_find_kind_range(s.skip(1), k);
        lemma_count_kind_none_from_find(s.skip(1), k);
    }
}

proof fn lemma_count_kind_at_most_wf(s: Seq<Capability>, k: int, i: int)
    requires
        caps_wf(s),
        0 <= i < s.len(),
        cap_kind(s[i]) == k,
    ensures
        count_kind(s, k) == 1,
{
    lemma_count_kind_remove(s, i, k);
    let t = s.remove(i);
    assert forall|j: int| 0 <= j < t.len() implies cap_kind(t[j]) != k by {
        let j0 = if j < i {
            j
        } else {
            j + 1
        };
        assert(t[j] == s[j0]);
    }
    lemma_count_kind_none(t, k);
}

/// Adding two capabilities of one kind in turn leaves exactly one entry of
/// that kind, at the position of the second add: the end of the list.
pub proof fn lemma_add_same_kind_twice(s: Seq<Capability>, c1: Capability, c2: Capability)
    requires
        caps_wf(s),
        cap_kind(c1) == cap_kind(c2),
    ensures
        caps_wf(spec_add(spec_add(s, c1), c2)),
        count_kind(spec_add(spec_add(s, c1), c2), cap_kind(c2)) == 1,
        spec_add(spec_add(s, c1), c2).last() == c2,
{
    lemma_add_keeps_kinds_unique(s, c1);
    lemma_add_keeps_kinds_unique(spec_add(s, c1), c2);
}

/// The key under which a capability appears in the handshake string: the
/// name before the `=` of a valued capability, the whole text of a flag.
pub open spec fn cap_key(c: Capability) -> Seq<char> {
    match c {
        Capability::Wma => "wma"@,
        Capability::Wmap => "wmap"@,
        Capability::Wmal => "wmal"@,
        Capability::Ogg => "ogg"@,
        Capability::Flc => "flc"@,
        Capability::Pcm => "pcm"@,
        Capability::Aif => "aif"@,
        Capability::Mp3 => "mp3"@,
        Capability::Alc => "alc"@,
        Capability::Aac => "aac"@,
        Capability::Maxsamplerate(_) => "MaxSampleRate"@,
        Capability::Model(_) => "Model"@,
        Capability::Modelname(_) => "Modelname"@,
        Capability::Rhap => "Rhap"@,
        Capability::Accurateplaypoints => "AccuratePlayPoints"@,
        Capability::Syncgroupid(_) => "SyncgroupID"@,
        Capability::Hasdigitalout => "HasDigitalOut"@,
        Capability::Haspreamp => "HasPreAmp"@,
        Capability::Hasdisabledac => "HasDisableDac"@,
        Capability::Firmware(_) => "Firmware"@,
        Capability::Balance => "Balance"@,
    }
}

/// Capabilities of different kinds appear under different keys: any two
/// keys differ in their length, their first two characters, or their last.
#[verifier::rlimit(90)]
#[verifier::spinoff_prover]
pub proof fn lemma_distinct_kinds_have_distinct_keys(a: Capability, b: Capability)
    requires
        cap_kind(a) != cap_kind(b),
    ensures
        cap_key(a) != cap_key(b),
{
    reveal_strlit("wma");
    reveal_strlit("wmap");
    reveal_strlit("wmal");
    reveal_strlit("ogg");
    reveal_strlit("flc");
    reveal_strlit("pcm");
    reveal_strlit("aif");
    reveal_strlit("mp3");
    reveal_strlit("alc");
    reveal_strlit("aac");
    reveal_strlit("MaxSampleRate");
    reveal_strlit("Model");
    reveal_strlit("Modelname");
    reveal_strlit("Rhap");
    reveal_strlit("AccuratePlayPoints");
    reveal_strlit("SyncgroupID");
    reveal_strlit("HasDigitalOut");
    reveal_strlit("HasPreAmp");
    reveal_strlit("HasDisableDac");
    reveal_strlit("Firmware");
    reveal_strlit("Balance");
    let ka = cap_key(a);
    let kb = cap_key(b);
    if ka == kb {
        assert(ka.len() == kb.len());
        assert(ka[0] == kb[0]);
        assert(ka[1] == kb[1]);
        assert(ka[ka.len() - 1] == kb[kb.len() - 1]);
        assert(false);
    }
}

/// In a well-formed list the rendered keys are pairwise distinct: adding
/// never leaves two entries under one key.
pub proof fn lemma_rendered_keys_unique(s: Seq<Capability>)
    requires
        caps_wf(s),
    ensures
        forall|i: int, j: int|
            0 <= i < j < s.len() ==> cap_key(#[trigger] s[i]) != cap_key(#[trigger] s[j]),
{
    assert forall|i: int, j: int|
        0 <= i < j < s.len() implies cap_key(#[trigger] s[i]) != cap_key(#[trigger] s[j]) by {
        lemma_distinct_kinds_have_distinct_keys(s[i], s[j]);
    }
}

/// Each rendered entry starts with its key: the flag texts are their keys
/// (with `=1` appended for the valued flags), and a valued capability's
/// text begins with its name and `=`.
#[verifier::rlimit(90)]
#[verifier::spinoff_prover]
pub proof fn lemma_cap_key_starts_text(c: Capability)
    ensures
        cap_chars(c).len() >= cap_key(c).len(),
        cap_chars(c).take(cap_key(c).len() as int) == cap_key(c),
{
    reveal_strlit("wma");
    reveal_strlit("wmap");
    reveal_strlit("wmal");
    reveal_strlit("ogg");
    reveal_strlit("flc");
    reveal_strlit("pcm");
    reveal_strlit("aif");
    reveal_strlit("mp3");
    reveal_strlit("alc");
    reveal_strlit("aac");
    reveal_strlit("MaxSampleRate");
    reveal_strlit("MaxSampleRate=");
    reveal_strlit("Model");
    reveal_strlit("Model=");
    reveal_strlit("Modelname");
    reveal_strlit("Modelname=");
    reveal_strlit("Rhap");
    reveal_strlit("AccuratePlayPoints");
    reveal_strlit("AccuratePlayPoints=1");
    reveal_strlit("SyncgroupID");
    reveal_strlit("SyncgroupID=");
    reveal_strlit("HasDigitalOut");
    reveal_strlit("HasDigitalOut=1");
    reveal_strlit("HasPreAmp");
    reveal_strlit("HasPreAmp=1");
    reveal_strlit("HasDisableDac");
    reveal_strlit("HasDisableDac=1");
    reveal_strlit("Firmware");
    reveal_strlit("Firmware=");
    reveal_strlit("Balance");
    reveal_strlit("Balance=1");
    match c {
        Capability::Maxsamplerate(_) => {
            assert(cap_chars(c).take(13) =~= "MaxSampleRate"@);
        },
        Capability::Model(_) => {
            assert(cap_chars(c).take(5) =~= "Model"@);
        },
        Capability::Modelname(_) => {
            assert(cap_chars(c).take(9) =~= "Modelname"@);
        },
        Capability::Syncgroupid(_) => {
            assert(cap_chars(c).take(11) =~= "SyncgroupID"@);
        },
        Capability::Firmware(_) => {
            assert(cap_chars(c).take(8) =~= "Firmware"@);
        },
        Capability::Accurateplaypoints => {
            assert(cap_chars(c).take(18) =~= "AccuratePlayPoints"@);
        },
        Capability::Hasdigitalout => {
            assert(cap_chars(c).take(13) =~= "HasDigitalOut"@);
        },
        Capability::Haspreamp => {
            assert(cap_chars(c).take(9) =~= "HasPreAmp"@);
        },
        Capability::Hasdisabledac => {
            assert(cap_chars(c).take(13) =~= "HasDisableDac"@);
        },
        Capability::Balance => {
            assert(cap_chars(c).take(7) =~= "Balance"@);
        },
        _ => {
            assert(cap_chars(c).take(cap_key(c).len() as int) =~= cap_key(c));
        },
    }
}

} // verus!


