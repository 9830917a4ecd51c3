//! Receivers found while browsing: merging mDNS answers with the same-machine
//! registry (one entry per instance name, kept in name order), and picking
//! the receiver to stream to.

use vstd::prelude::*;
use crate::discovery::{
    advertisement_from_txt, instance_label, pair_views, parse_txt_properties, txt_props_of,
    DiscoveredStream, DiscoveryError, StreamAdvertisement,
};
use crate::text::{parse_unsigned, parse_unsigned_chars, str_chars, string_from_chars};

verus! {

/// Instance label published for this machine: its host name, or
/// `zerocast` where the host has none.
pub fn local_instance_name(hostname: Option<String>) -> (r: String)
    ensures
        r@ == (match hostname {
            Some(h) => h@,
            None => "zerocast"@,
        }),
{
    match hostname {
        Some(h) => h,
        None => "zerocast".to_owned(),
    }
}

/// Extra browse time after each service found, for its records to resolve (ms).
pub const RESOLVE_GRACE_MS: u64 = 3000;

/// Browse deadline (ms since the browse began) after a service was found at
/// `now_ms`: pushed out to `now_ms` + 3 s when that is later.
pub fn deadline_after_found(deadline_ms: u64, now_ms: u64) -> (r: u64)
    ensures
        r == (if now_ms + 3000 > deadline_ms { if now_ms + 3000 > u64::MAX { u64::MAX as int } else { now_ms + 3000 } } else { deadline_ms as int }),
{
    let extended = now_ms.saturating_add(RESOLVE_GRACE_MS);
    if extended > deadline_ms {
        extended
    } else {
        deadline_ms
    }
}

/// `a` sorts before `b`: lexicographic by character (as `String` orders).
pub open spec fn name_lt(a: Seq<char>, b: Seq<char>) -> bool
    decreases a.len(),
{
    if a.len() == 0 {
        b.len() > 0
    } else if b.len() == 0 {
        false
    } else if a[0] != b[0] {
        a[0] < b[0]
    } else {
        name_lt(a.drop_first(), b.drop_first())
    }
}

/// Name order is a strict total order.
pub proof fn lemma_name_order(a: Seq<char>, b: Seq<char>, c: Seq<char>)
    ensures
        !name_lt(a, a),
        name_lt(a, b) ==> !name_lt(b, a),
        a != b ==> name_lt(a, b) || name_lt(b, a),
        name_lt(a, b) && name_lt(b, c) ==> name_lt(a, c),
    decreases a.len() + b.len() + c.len(),
{
    if a.len() > 0 && b.len() > 0 && c.len() > 0 {
        lemma_name_order(a.drop_first(), b.drop_first(), c.drop_first());
        if a != b && a[0] == b[0] {
            assert(a.drop_first() != b.drop_first()) by {
                if a.drop_first() == b.drop_first() {
                    assert(a =~= seq![a[0]] + a.drop_first());
                    assert(b =~= seq![b[0]] + b.drop_first());
                }
            }
        }
    } else if a.len() > 0 && b.len() > 0 {
        lemma_name_order(a.drop_first(), b.drop_first(), c);
        if a != b && a[0] == b[0] {
            assert(a.drop_first() != b.drop_first()) by {
                if a.drop_first() == b.drop_first() {
                    assert(a =~= seq![a[0]] + a.drop_first());
                    assert(b =~= seq![b[0]] + b.drop_first());
                }
            }
        }
    } else if a.len() > 0 {
        lemma_name_order(a.drop_first(), b, c);
    } else if b.len() > 0 && c.len() > 0 {
        lemma_name_order(a, b.drop_first(), c.drop_first());
    }
    if a.len() == 0 && b.len() == 0 {
        assert(a =~= b);
    }
}

/// Order of two names.
#[derive(Debug, Clone, Copy, PartialEq, Eq, Structural)]
pub enum NameOrder {
    Before,
    Same,
    After,
}

/// Where `a` sorts relative to `b`.
pub fn name_order(a: &[char], b: &[char]) -> (r: NameOrder)
    ensures
        r == NameOrder::Before <==> name_lt(a@, b@),
        r == NameOrder::Same <==> a@ == b@,
        r == NameOrder::After <==> name_lt(b@, a@),
{
    let mut i: usize = 0;
    assert(a@.skip(0) =~= a@);
    assert(b@.skip(0) =~= b@);
    assert(a@.take(0) =~= b@.take(0));
    while i < a.len() && i < b.len() && a[i] == b[i]
        invariant
            i <= a@.len(),
            i <= b@.len(),
            a@.take(i as int) == b@.take(i as int),
            name_lt(a@, b@) == name_lt(a@.skip(i as int), b@.skip(i as int)),
            name_lt(b@, a@) == name_lt(b@.skip(i as int), a@.skip(i as int)),
        decreases a@.len() - i,
    {
        assert(a@.skip(i as int).drop_first() =~= a@.skip(i + 1));
        assert(b@.skip(i as int).drop_first() =~= b@.skip(i + 1));
        assert(a@.take(i + 1) =~= a@.take(i as int).push(a@[i as int]));
        assert(b@.take(i + 1) =~= b@.take(i as int).push(b@[i as int]));
        i += 1;
    }
    proof { lemma_name_order(a@, b@, b@); }
    if i < a.len() && i < b.len() {
        if a[i] < b[i] {
            NameOrder::Before
        } else {
            NameOrder::After
        }
    } else if i < b.len() {
        assert(a@ =~= a@.take(i as int));
        NameOrder::Before
    } else if i < a.len() {
        assert(b@ =~= b@.take(i as int));
        NameOrder::After
    } else {
        assert(a@ =~= a@.take(i as int));
        assert(b@ =~= b@.take(i as int));
        NameOrder::Same
    }
}

/// Instance name of an mDNS full name: the text before the first `.`.
pub fn instance_name_from_fullname(fullname: &str) -> (r: String)
    ensures
        r@ == instance_label(fullname@),
{
    let cs = str_chars(fullname);
    let mut i: usize = 0;
    while i < cs.len() && cs[i] != '.'
        invariant
            cs@ == fullname@,
            i <= cs@.len(),
            forall|k: int| 0 <= k < i ==> #[trigger] cs@[k] != '.',
        decreases cs@.len() - i,
    {
        i += 1;
    }
    proof { lemma_label_prefix(cs@, i as int); }
    string_from_chars(&cs.as_slice()[0..i])
}

proof fn lemma_label_prefix(s: Seq<char>, i: int)
    requires
        0 <= i <= s.len(),
        forall|k: int| 0 <= k < i ==> #[trigger] s[k] != '.',
        i == s.len() || s[i] == '.',
    ensures
        instance_label(s) == s.take(i),
    decreases i,
{
    if i == 0 {
        assert(s.take(0) =~= Seq::<char>::empty());
    } else {
        let t = s.drop_first();
        assert forall|k: int| 0 <= k < i - 1 implies #[trigger] t[k] != '.' by {
            assert(t[k] == s[k + 1]);
        }
        if i < s.len() {
            assert(t[i - 1] == s[i]);
        }
        assert(s[0] != '.');
        lemma_label_prefix(t, i - 1);
        assert(s.take(i) =~= seq![s[0]] + t.take(i - 1));
    }
}

/// `s` without its trailing dots.
pub open spec fn without_trailing_dots(s: Seq<char>) -> Seq<char>
    decreases s.len(),
{
    if s.len() > 0 && s.last() == '.' {
        without_trailing_dots(s.drop_last())
    } else {
        s
    }
}

/// The address used for a resolved service: its first IPv4 address, else
/// its first address, else its host name without trailing dots.
pub fn resolved_host(first_v4: Option<String>, first_addr: Option<String>, hostname: &str) -> (r: String)
    ensures
        r@ == (match first_v4 {
            Some(a) => a@,
            None => match first_addr {
                Some(a) => a@,
                None => without_trailing_dots(hostname@),
            },
        }),
{
    match first_v4 {
        Some(a) => a,
        None => match first_addr {
            Some(a) => a,
            None => {
                let cs = str_chars(hostname);
                let mut n: usize = cs.len();
                assert(cs@.take(cs@.len() as int) =~= cs@);
                while n > 0 && cs[n - 1] == '.'
                    invariant
                        cs@ == hostname@,
                        n <= cs@.len(),
                        without_trailing_dots(hostname@) == without_trailing_dots(cs@.take(n as int)),
                    decreases n,
                {
                    assert(cs@.take(n as int).drop_last() =~= cs@.take(n - 1));
                    n -= 1;
                }
                let r = string_from_chars(&cs.as_slice()[0..n]);
                assert(cs@.subrange(0, n as int) =~= cs@.take(n as int));
                proof {
                    if n == 0 {
                        assert(cs@.take(0) =~= Seq::<char>::empty());
                    }
                    assert(cs@.take(n as int) =~= cs@.take(n as int));
                }
                assert(cs@.take(cs@.len() as int) =~= cs@);
                r
            },
        },
    }
}

/// The advertisement of a resolved mDNS service: instance name from its full
/// name, address as in `resolved_host`, its port, and its TXT properties.
pub fn resolved_advertisement(
    fullname: &str,
    first_v4: Option<String>,
    first_addr: Option<String>,
    hostname: &str,
    port: u16,
    properties: &[(String, String)],
) -> (r: StreamAdvertisement)
    ensures
        r.instance_name@ == instance_label(fullname@),
        r.host@ == (match first_v4 {
            Some(a) => a@,
            None => match first_addr {
                Some(a) => a@,
                None => without_trailing_dots(hostname@),
            },
        }),
        r.port == port,
        r.width == txt_props_of(pair_views(properties@)).width,
        r.height == txt_props_of(pair_views(properties@)).height,
        r.fps == txt_props_of(pair_views(properties@)).fps,
        r.max_width == txt_props_of(pair_views(properties@)).max_width,
        r.max_height == txt_props_of(pair_views(properties@)).max_height,
        r.max_fps == txt_props_of(pair_views(properties@)).max_fps,
{
    let instance = instance_name_from_fullname(fullname);
    let host = resolved_host(first_v4, first_addr, hostname);
    let txt = parse_txt_properties(properties);
    advertisement_from_txt(instance, host, port, txt)
}

/// Names of the advertisements strictly increase along the list: each name
/// occurs once, in name order.
pub open spec fn sorted_by_name(s: Seq<StreamAdvertisement>) -> bool {
    forall|i: int, j: int| 0 <= i < j < s.len() ==> name_lt(#[trigger] s[i].instance_name@, #[trigger] s[j].instance_name@)
}

/// `p` splits the list at `name`: names before it sort before `name`, none after does.
pub open spec fn is_name_split(s: Seq<StreamAdvertisement>, name: Seq<char>, p: int) -> bool {
    &&& 0 <= p <= s.len()
    &&& forall|i: int| 0 <= i < p ==> name_lt(#[trigger] s[i].instance_name@, name)
    &&& forall|i: int| p <= i < s.len() ==> !name_lt(#[trigger] s[i].instance_name@, name)
}

/// Where `name` belongs in the list.
pub open spec fn name_split(s: Seq<StreamAdvertisement>, name: Seq<char>) -> int {
    choose|p: int| is_name_split(s, name, p)
}

/// The list holds an advertisement named `name`.
pub open spec fn has_name(s: Seq<StreamAdvertisement>, name: Seq<char>) -> bool {
    exists|i: int| 0 <= i < s.len() && #[trigger] s[i].instance_name@ == name
}

/// The list after an mDNS answer: it replaces the entry of the same name, or goes in name order.
pub open spec fn with_resolved(s: Seq<StreamAdvertisement>, ad: StreamAdvertisement) -> Seq<StreamAdvertisement> {
    let p = name_split(s, ad.instance_name@);
    if p < s.len() && s[p].instance_name@ == ad.instance_name@ {
        s.update(p, ad)
    } else {
        s.insert(p, ad)
    }
}

/// The list after a registry entry: kept only when it has a size and its
/// name is not there yet.
pub open spec fn with_local(s: Seq<StreamAdvertisement>, ad: StreamAdvertisement) -> Seq<StreamAdvertisement> {
    if ad.width == 0 || ad.height == 0 || has_name(s, ad.instance_name@) {
        s
    } else {
        s.insert(name_split(s, ad.instance_name@), ad)
    }
}

/// Receivers found so far, one per instance name, in name order.
pub struct StreamDirectory {
    ads: Vec<StreamAdvertisement>,
}

impl View for StreamDirectory {
    type V = Seq<StreamAdvertisement>;

    closed spec fn view(&self) -> Seq<StreamAdvertisement> {
        self.ads@
    }
}

proof fn lemma_name_split_unique(s: Seq<StreamAdvertisement>, name: Seq<char>, p: int)
    requires
        is_name_split(s, name, p),
    ensures
        name_split(s, name) == p,
{
    let q = name_split(s, name);
    assert(is_name_split(s, name, q));
    if q < p {
        assert(name_lt(s[q].instance_name@, name));
    } else if q > p {
        assert(name_lt(s[p].instance_name@, name));
    }
}

impl StreamDirectory {
    /// Well-formedness: names strictly increase.
    pub open spec fn wf(&self) -> bool {
        sorted_by_name(self@)
    }

    /// No receiver yet.
    pub fn new() -> (r: Self)
        ensures
            r.wf(),
            r@ == Seq::<StreamAdvertisement>::empty(),
    {
        StreamDirectory { ads: Vec::new() }
    }

    /// Number of receivers.
    pub fn len(&self) -> (r: usize)
        ensures
            r == self@.len(),
    {
        self.ads.len()
    }

    /// Where `name` belongs, and whether an entry of that name is there.
    fn locate(&self, name: &[char]) -> (r: (usize, bool))
        requires
            self.wf(),
        ensures
            is_name_split(self@, name@, r.0 as int),
            r.1 == (r.0 < self@.len() && self@[r.0 as int].instance_name@ == name@),
            r.1 == has_name(self@, name@),
    {
        let n = self.ads.len();
        let mut p: usize = 0;
        let mut stop = false;
        while p < n && !stop
            invariant
                n == self@.len(),
                p <= n,
                forall|i: int| 0 <= i < p ==> name_lt(#[trigger] self@[i].instance_name@, name@),
                stop ==> p < n && !name_lt(self@[p as int].instance_name@, name@),
            decreases n - p + (if stop { 0int } else { 1int }),
        {
            let cs = str_chars(self.ads[p].instance_name.as_str());
            match name_order(cs.as_slice(), name) {
                NameOrder::Before => {
                    p += 1;
                },
                _ => {
                    stop = true;
                },
            }
        }
        proof {
            assert forall|i: int| p <= i < n implies !name_lt(#[trigger] self@[i].instance_name@, name@) by {
                if i > p {
                    lemma_name_order(self@[p as int].instance_name@, self@[i].instance_name@, name@);
                    lemma_name_order(name@, self@[p as int].instance_name@, self@[i].instance_name@);
                    lemma_name_order(self@[i].instance_name@, name@, name@);
                    lemma_name_order(self@[p as int].instance_name@, name@, name@);
                }
            }
        }
        let found = if p < n {
            let cs = str_chars(self.ads[p].instance_name.as_str());
            match name_order(cs.as_slice(), name) {
                NameOrder::Same => true,
                _ => false,
            }
        } else {
            false
        };
        proof {
            if has_name(self@, name@) {
                let k = choose|k: int| 0 <= k < self@.len() && #[trigger] self@[k].instance_name@ == name@;
                lemma_name_order(name@, name@, name@);
                if k < p {
                    assert(name_lt(self@[k].instance_name@, name@));
                } else if k > p {
                    assert(p < n);
                    lemma_name_order(self@[p as int].instance_name@, name@, name@);
                    assert(name_lt(self@[p as int].instance_name@, self@[k].instance_name@));
                }
            }
            if found {
                assert(self@[p as int].instance_name@ == name@);
            }
        }
        (p, found)
    }

    /// Adds an mDNS answer, replacing an entry of the same instance name.
    pub fn insert_resolved(&mut self, ad: StreamAdvertisement)
        requires
            old(self).wf(),
        ensures
            final(self).wf(),
            final(self)@ == with_resolved(old(self)@, ad),
    {
        let name = str_chars(ad.instance_name.as_str());
        let (p, found) = self.locate(name.as_slice());
        let ghost s0 = self@;
        proof { lemma_name_split_unique(s0, ad.instance_name@, p as int); }
        if found {
            self.ads[p] = ad;
            assert forall|i: int, j: int| 0 <= i < j < self@.len() implies name_lt(#[trigger] self@[i].instance_name@, #[trigger] self@[j].instance_name@) by {
                assert(self@[i].instance_name@ == s0[i].instance_name@);
                assert(self@[j].instance_name@ == s0[j].instance_name@);
            }
        } else {
            let ghost adv = ad;
            self.ads.insert(p, ad);
            assert forall|i: int, j: int| 0 <= i < j < self@.len() implies name_lt(#[trigger] self@[i].instance_name@, #[trigger] self@[j].instance_name@) by {
                lemma_name_order(adv.instance_name@, adv.instance_name@, adv.instance_name@);
                if j < p {
                } else if j == p {
                } else if i == p {
                    assert(self@[j] == s0[j - 1]);
                    assert(!name_lt(s0[j - 1].instance_name@, adv.instance_name@));
                    assert(s0[j - 1].instance_name@ != adv.instance_name@) by {
                        if s0[j - 1].instance_name@ == adv.instance_name@ {
                            if j - 1 > p {
                                assert(name_lt(s0[p as int].instance_name@, s0[j - 1].instance_name@));
                                lemma_name_order(s0[p as int].instance_name@, adv.instance_name@, adv.instance_name@);
                            }
                        }
                    }
                    lemma_name_order(adv.instance_name@, s0[j - 1].instance_name@, adv.instance_name@);
                } else if i < p {
                    assert(self@[j] == s0[j - 1]);
                } else {
                    assert(self@[i] == s0[i - 1] && self@[j] == s0[j - 1]);
                }
            }
        }
    }

    /// Adds a registry entry unless it has no size or its name is already there.
    pub fn merge_local(&mut self, ad: StreamAdvertisement)
        requires
            old(self).wf(),
        ensures
            final(self).wf(),
            final(self)@ == with_local(old(self)@, ad),
    {
        if ad.width == 0 || ad.height == 0 {
            return;
        }
        let name = str_chars(ad.instance_name.as_str());
        let (p, found) = self.locate(name.as_slice());
        if found {
            return;
        }
        let ghost s0 = self@;
        proof { lemma_name_split_unique(s0, ad.instance_name@, p as int); }
        let ghost adv = ad;
        self.ads.insert(p, ad);
        assert forall|i: int, j: int| 0 <= i < j < self@.len() implies name_lt(#[trigger] self@[i].instance_name@, #[trigger] self@[j].instance_name@) by {
            if j < p {
            } else if j == p {
            } else if i == p {
                assert(self@[j] == s0[j - 1]);
                assert(s0[j - 1].instance_name@ != adv.instance_name@) by {
                    if s0[j - 1].instance_name@ == adv.instance_name@ {
                        assert(has_name(s0, adv.instance_name@));
                    }
                }
                lemma_name_order(adv.instance_name@, s0[j - 1].instance_name@, adv.instance_name@);
            } else if i < p {
                assert(self@[j] == s0[j - 1]);
            } else {
                assert(self@[i] == s0[i - 1] && self@[j] == s0[j - 1]);
            }
        }
    }

    /// The receivers found, in name order.
    pub fn into_streams(self) -> (r: Vec<DiscoveredStream>)
        ensures
            r@.len() == self@.len(),
            forall|i: int| 0 <= i < r@.len() ==> #[trigger] r@[i].advertisement == self@[i],
    {
        let mut ads = self.ads;
        let ghost s0 = ads@;
        let mut out: Vec<DiscoveredStream> = Vec::new();
        assert(s0.skip(0) =~= s0);
        while ads.len() > 0
            invariant
                out@.len() + ads@.len() == s0.len(),
                ads@ == s0.skip(out@.len() as int),
                forall|i: int| 0 <= i < out@.len() ==> #[trigger] out@[i].advertisement == s0[i],
            decreases ads@.len(),
        {
            let ghost before = ads@;
            let ghost k = out@.len() as int;
            let ad = ads.remove(0);
            assert(ad == s0[k]);
            assert(ads@ =~= s0.skip(k + 1));
            out.push(DiscoveredStream { advertisement: ad });
        }
        out
    }
}

/// Picks the receiver to stream to: the only one; with several, the one at
/// the position the pick names (a decimal index). No receiver, several with
/// no pick, a pick that is not a number, or one past the end are errors.
pub fn pick_receiver(streams: Vec<DiscoveredStream>, pick: Option<&str>) -> (r: Result<StreamAdvertisement, DiscoveryError>)
    ensures
        streams@.len() == 0 ==> r == Err::<StreamAdvertisement, DiscoveryError>(DiscoveryError::NoReceivers),
        streams@.len() == 1 ==> r == Ok::<StreamAdvertisement, DiscoveryError>(streams@[0].advertisement),
        streams@.len() > 1 && pick is None ==> r == Err::<StreamAdvertisement, DiscoveryError>(DiscoveryError::Ambiguous { count: streams@.len() as usize }),
        streams@.len() > 1 && pick is Some ==> match parse_unsigned(pick->0@, usize::MAX as nat) {
            None => r matches Err(DiscoveryError::InvalidPick { pick: s }) && s@ == pick->0@,
            Some(i) => if i < streams@.len() {
                r == Ok::<StreamAdvertisement, DiscoveryError>(streams@[i as int].advertisement)
            } else {
                r == Err::<StreamAdvertisement, DiscoveryError>(DiscoveryError::PickOutOfRange { index: i as usize, count: streams@.len() as usize })
            },
        },
{
    let n = streams.len();
    if n == 0 {
        return Err(DiscoveryError::NoReceivers);
    }
    let index: usize = if n == 1 {
        0
    } else {
        match pick {
            None => return Err(DiscoveryError::Ambiguous { count: n }),
            Some(s) => {
                let cs = str_chars(s);
                match parse_unsigned_chars(cs.as_slice(), usize::MAX as u64) {
                    None => return Err(DiscoveryError::InvalidPick { pick: string_from_chars(cs.as_slice()) }),
                    Some(i) => {
                        if i >= n as u64 {
                            return Err(DiscoveryError::PickOutOfRange { index: i as usize, count: n });
                        }
                        i as usize
                    },
                }
            },
        }
    };
    let mut streams = streams;
    let picked = streams.remove(index);
    Ok(picked.advertisement)
}

} // verus!
