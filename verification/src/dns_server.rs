//! The DNS datagram handler: answers A/AAAA queries through a pluggable
//! resolver, under a concurrency cap, recording every resolved address in
//! a bounded reverse cache so later stages can recover the original
//! hostname from a resolved IP.
//!
//! The resolver itself is asynchronous and lives outside; the handler's
//! work on one query packet — decode, per-question answers and response
//! code, cache updates, encode — is a plain function of the packet bytes
//! and the resolver's outcomes, specified and verified here.

use vstd::prelude::*;

use crate::dns_cache::{
    lru4_cap, lru4_contents, lru4_get_or_insert, lru4_len, lru4_new, lru4_peek, lru6_cap,
    lru6_contents, lru6_get_or_insert, lru6_len, lru6_new, lru6_peek,
};
use crate::dns_codec::{
    encode_message, parse_message, spec_enc_message, spec_parse_message, valid_message,
    AnswerView, DnsAnswer, DnsMessageModel, DnsQuestion, MessageView, QuestionView, RTYPE_A,
    RTYPE_AAAA,
};
use crate::ip_packet::{enc_u128, enc_u32, push_u128, push_u32};
use crate::registry::WeakHandle;

verus! {

/// Capacity of each reverse cache, per address family.
pub const CACHE_CAPACITY: usize = 1024;

/// The DNS response code for a name that did not resolve.
pub const RCODE_NXDOMAIN: u16 = 3;

/// The DNS response code for an unimplemented query type.
pub const RCODE_NOTIMP: u16 = 4;

/// The concurrency cap on in-flight queries: a permit is taken per query
/// and given back when the query finishes, so at no point are more than
/// `limit` resolver calls outstanding.
pub struct DnsPermits {
    pub limit: usize,
    pub outstanding: usize,
}

impl DnsPermits {
    /// The cap is never exceeded.
    pub open spec fn wf(self) -> bool {
        self.outstanding <= self.limit
    }

    pub fn new(limit: usize) -> (p: DnsPermits)
        ensures
            p.wf(),
            p.limit == limit,
            p.outstanding == 0,
    {
        DnsPermits { limit, outstanding: 0 }
    }

    /// Take a permit if one is free; a query that gets none must wait.
    pub fn try_acquire(&mut self) -> (granted: bool)
        requires
            old(self).wf(),
        ensures
            final(self).wf(),
            final(self).limit == old(self).limit,
            granted == (old(self).outstanding < old(self).limit),
            granted ==> final(self).outstanding == old(self).outstanding + 1,
            !granted ==> final(self).outstanding == old(self).outstanding,
    {
        if self.outstanding < self.limit {
            self.outstanding = self.outstanding + 1;
            true
        } else {
            false
        }
    }

    /// Give a permit back when the query future completes.
    pub fn release(&mut self)
        requires
            old(self).wf(),
            old(self).outstanding >= 1,
        ensures
            final(self).wf(),
            final(self).limit == old(self).limit,
            final(self).outstanding == old(self).outstanding - 1,
    {
        self.outstanding = self.outstanding - 1;
    }
}

/// What the resolver returned for one question: the addresses, or a
/// failure (which the handler turns into an in-band response code, never a
/// host error).
pub enum ResolveOutcome {
    Ipv4(Vec<u32>),
    Ipv6(Vec<u128>),
    Fail,
}

/// The response code accumulated over the questions from `i` on, starting
/// from `cur`: a failed resolution leaves NXDOMAIN, a query type other
/// than A/AAAA leaves NOTIMP, and a later problem overwrites an earlier
/// code.
pub open spec fn spec_rcode(
    qs: Seq<QuestionView>,
    outs: Seq<ResolveOutcome>,
    i: int,
    cur: u16,
) -> u16
    decreases qs.len() - i,
    when 0 <= i
{
    if i >= qs.len() {
        cur
    } else {
        let nxt = if qs[i].qtype == RTYPE_A {
            match outs[i] {
                ResolveOutcome::Ipv4(_) => cur,
                _ => RCODE_NXDOMAIN,
            }
        } else if qs[i].qtype == RTYPE_AAAA {
            match outs[i] {
                ResolveOutcome::Ipv6(_) => cur,
                _ => RCODE_NXDOMAIN,
            }
        } else {
            RCODE_NOTIMP
        };
        spec_rcode(qs, outs, i + 1, nxt)
    }
}

/// The answer records for one resolved question: one record per address,
/// carrying the question's own name and the configured TTL.
pub open spec fn spec_answers_of(q: QuestionView, out: ResolveOutcome, ttl: u32) -> Seq<
    AnswerView,
> {
    if q.qtype == RTYPE_A {
        match out {
            ResolveOutcome::Ipv4(ips) => Seq::new(
                ips@.len(),
                |k: int| AnswerView { name: q.name, rtype: RTYPE_A, ttl, rdata: enc_u32(ips@[k]) },
            ),
            _ => Seq::empty(),
        }
    } else if q.qtype == RTYPE_AAAA {
        match out {
            ResolveOutcome::Ipv6(ips) => Seq::new(
                ips@.len(),
                |k: int| AnswerView {
                    name: q.name,
                    rtype: RTYPE_AAAA,
                    ttl,
                    rdata: enc_u128(ips@[k]),
                },
            ),
            _ => Seq::empty(),
        }
    } else {
        Seq::empty()
    }
}

/// The whole answer section: the answers of the questions from `i` on, in
/// question order.
pub open spec fn spec_answers(
    qs: Seq<QuestionView>,
    outs: Seq<ResolveOutcome>,
    ttl: u32,
    i: int,
) -> Seq<AnswerView>
    decreases qs.len() - i,
    when 0 <= i
{
    if i >= qs.len() {
        Seq::empty()
    } else {
        spec_answers_of(qs[i], outs[i], ttl) + spec_answers(qs, outs, ttl, i + 1)
    }
}

/// The flags of the response: the query's flags with the response bit set
/// and the low four bits replaced by the response code.
pub open spec fn spec_response_flags(qflags: u16, rcode: u16) -> u16 {
    ((qflags | 0x8000) & 0xfff0) | (rcode & 0xf)
}

/// The response to a parsed query under the resolver's outcomes: same
/// identifier, response flags, the question section preserved, the answer
/// section populated.
pub open spec fn spec_response(m: MessageView, outs: Seq<ResolveOutcome>, ttl: u32) -> MessageView {
    MessageView {
        id: m.id,
        flags: spec_response_flags(m.flags, spec_rcode(m.questions, outs, 0, 0)),
        questions: m.questions,
        answers: spec_answers(m.questions, outs, ttl, 0),
    }
}

/// The state of a reverse cache midway through recording one query's
/// addresses: every earlier entry is untouched, the first `j` addresses
/// are in, bound to the queried name unless an earlier query already
/// claimed them, and nothing else has appeared.
pub open spec fn cache_recording<K>(
    c0: Map<K, Seq<u8>>,
    c: Map<K, Seq<u8>>,
    ips: Seq<K>,
    j: int,
    name: Seq<u8>,
) -> bool {
    &&& forall|n: K| c0.dom().contains(n) ==> #[trigger] c.dom().contains(n) && c[n] == c0[n]
    &&& forall|k: int|
        0 <= k < j ==> c.dom().contains(#[trigger] ips[k]) && (!c0.dom().contains(ips[k])
            ==> c[ips[k]] == name)
    &&& forall|n: K| #[trigger] c.dom().contains(n) ==> c0.dom().contains(n) || c[n] == name
}

/// One `get_or_insert` step keeps the recording state: a present address
/// is left alone, an absent one is bound to the name.
proof fn lemma_cache_recording_step<K>(
    c0: Map<K, Seq<u8>>,
    cprev: Map<K, Seq<u8>>,
    cnow: Map<K, Seq<u8>>,
    ips: Seq<K>,
    j: int,
    name: Seq<u8>,
)
    requires
        cache_recording(c0, cprev, ips, j, name),
        0 <= j < ips.len(),
        cprev.dom().contains(ips[j]) ==> cnow == cprev,
        !cprev.dom().contains(ips[j]) ==> cnow == cprev.insert(ips[j], name),
    ensures
        cache_recording(c0, cnow, ips, j + 1, name),
{
    let ip = ips[j];
    if cprev.dom().contains(ip) {
        assert(cnow.dom().contains(ip));
        assert(!c0.dom().contains(ip) ==> cnow[ip] == name);
    } else {
        assert forall|n: K| c0.dom().contains(n) implies #[trigger] cnow.dom().contains(n)
            && cnow[n] == c0[n] by {
            assert(cprev.dom().contains(n) && cprev[n] == c0[n]);
            assert(n != ip);
        }
        assert forall|k: int| 0 <= k < j + 1 implies cnow.dom().contains(#[trigger] ips[k]) && (
        !c0.dom().contains(ips[k]) ==> cnow[ips[k]] == name) by {
            if k < j {
                assert(cprev.dom().contains(ips[k]));
            }
        }
        assert forall|n: K| #[trigger] cnow.dom().contains(n) implies c0.dom().contains(n)
            || cnow[n] == name by {
            if n != ip {
                assert(cprev.dom().contains(n));
            }
        }
    }
}

/// The DNS datagram handler: concurrency permits, the weak handle to the
/// resolver, the answer TTL, and the two reverse caches.
pub struct DnsDatagramHandler {
    pub concurrency_limit: DnsPermits,
    pub resolver: WeakHandle,
    pub ttl: u32,
    pub reverse_mapping_v4: lru::LruCache<u32, Vec<u8>, std::collections::hash_map::RandomState>,
    pub reverse_mapping_v6: lru::LruCache<u128, Vec<u8>, std::collections::hash_map::RandomState>,
}

impl DnsDatagramHandler {
    /// The caches are bounded at `CACHE_CAPACITY` entries per family and
    /// the permit count never exceeds its limit.
    pub open spec fn wf(self) -> bool {
        &&& self.concurrency_limit.wf()
        &&& lru4_cap(self.reverse_mapping_v4) == CACHE_CAPACITY
        &&& lru6_cap(self.reverse_mapping_v6) == CACHE_CAPACITY
        &&& lru4_contents(self.reverse_mapping_v4).dom().finite()
        &&& lru6_contents(self.reverse_mapping_v6).dom().finite()
        &&& lru4_contents(self.reverse_mapping_v4).dom().len() <= CACHE_CAPACITY
        &&& lru6_contents(self.reverse_mapping_v6).dom().len() <= CACHE_CAPACITY
    }

    pub fn new(concurrency_limit: usize, resolver: WeakHandle, ttl: u32) -> (h: DnsDatagramHandler)
        ensures
            h.wf(),
            h.concurrency_limit.limit == concurrency_limit,
            h.concurrency_limit.outstanding == 0,
            h.resolver == resolver,
            h.ttl == ttl,
            (lru4_contents(h.reverse_mapping_v4) == Map::<u32, Seq<u8>>::empty()),
            (lru6_contents(h.reverse_mapping_v6) == Map::<u128, Seq<u8>>::empty()),
    {
        DnsDatagramHandler {
            concurrency_limit: DnsPermits::new(concurrency_limit),
            resolver,
            ttl,
            reverse_mapping_v4: lru4_new(CACHE_CAPACITY),
            reverse_mapping_v6: lru6_new(CACHE_CAPACITY),
        }
    }

    /// How many entries the IPv4 reverse cache holds; never more than
    /// `CACHE_CAPACITY`.
    pub fn reverse_v4_len(&self) -> (n: usize)
        requires
            self.wf(),
        ensures
            n == lru4_contents(self.reverse_mapping_v4).dom().len(),
            n <= CACHE_CAPACITY,
    {
        lru4_len(&self.reverse_mapping_v4)
    }

    /// How many entries the IPv6 reverse cache holds; never more than
    /// `CACHE_CAPACITY`.
    pub fn reverse_v6_len(&self) -> (n: usize)
        requires
            self.wf(),
        ensures
            n == lru6_contents(self.reverse_mapping_v6).dom().len(),
            n <= CACHE_CAPACITY,
    {
        lru6_len(&self.reverse_mapping_v6)
    }

    /// Look a resolved IPv4 address up in the reverse cache.
    pub fn reverse_v4_lookup(&self, ip: u32) -> (r: Option<Vec<u8>>)
        ensures
            match r {
                Some(v) => lru4_contents(self.reverse_mapping_v4).dom().contains(ip) && v@
                    == lru4_contents(self.reverse_mapping_v4)[ip],
                None => !lru4_contents(self.reverse_mapping_v4).dom().contains(ip),
            },
    {
        lru4_peek(&self.reverse_mapping_v4, ip)
    }

    /// Look a resolved IPv6 address up in the reverse cache.
    pub fn reverse_v6_lookup(&self, ip: u128) -> (r: Option<Vec<u8>>)
        ensures
            match r {
                Some(v) => lru6_contents(self.reverse_mapping_v6).dom().contains(ip) && v@
                    == lru6_contents(self.reverse_mapping_v6)[ip],
                None => !lru6_contents(self.reverse_mapping_v6).dom().contains(ip),
            },
    {
        lru6_peek(&self.reverse_mapping_v6, ip)
    }

    /// Record one successful A resolution: each returned address maps to
    /// the queried name, inserted only if absent. As long as the cache has
    /// room for all of them, every address is in the cache afterwards,
    /// bound to the queried name unless an earlier query already claimed
    /// it; under LRU pressure an insertion may evict another entry, and
    /// the bound still holds.
    pub fn record_reverse_v4(&mut self, ips: &Vec<u32>, name: &Vec<u8>)
        requires
            old(self).wf(),
        ensures
            final(self).wf(),
            final(self).concurrency_limit == old(self).concurrency_limit,
            final(self).resolver == old(self).resolver,
            final(self).ttl == old(self).ttl,
            final(self).reverse_mapping_v6 == old(self).reverse_mapping_v6,
            lru4_contents(old(self).reverse_mapping_v4).dom().len() + ips@.len() <= CACHE_CAPACITY
                ==> cache_recording(
                lru4_contents(old(self).reverse_mapping_v4),
                lru4_contents(final(self).reverse_mapping_v4),
                ips@,
                ips@.len() as int,
                name@,
            ),
    {
        let ghost c0 = lru4_contents(self.reverse_mapping_v4);
        let ghost np = c0.dom().len() + ips@.len() <= CACHE_CAPACITY;
        let mut j: usize = 0;
        while j < ips.len()
            invariant
                j <= ips@.len(),
                self.wf(),
                self.concurrency_limit == old(self).concurrency_limit,
                self.resolver == old(self).resolver,
                self.ttl == old(self).ttl,
                self.reverse_mapping_v6 == old(self).reverse_mapping_v6,
                np == (c0.dom().len() + ips@.len() <= CACHE_CAPACITY),
                c0 == lru4_contents(old(self).reverse_mapping_v4),
                np ==> lru4_contents(self.reverse_mapping_v4).dom().len() <= c0.dom().len() + j,
                np ==> cache_recording(c0, lru4_contents(self.reverse_mapping_v4), ips@, j as int, name@),
            decreases ips@.len() - j,
        {
            let ip = ips[j];
            let owned = crate::dns_codec::copy_bytes(name);
            let ghost cprev = lru4_contents(self.reverse_mapping_v4);
            lru4_get_or_insert(&mut self.reverse_mapping_v4, ip, owned);
            proof {
                let cnow = lru4_contents(self.reverse_mapping_v4);
                if np {
                    assert(cprev.dom().len() < CACHE_CAPACITY);
                    if cprev.dom().contains(ip) {
                        assert(cnow == cprev);
                    } else {
                        assert(cnow == cprev.insert(ip, owned@));
                        assert(cnow.dom() =~= cprev.dom().insert(ip));
                        vstd::set::axiom_set_insert_len(cprev.dom(), ip);
                    }
                    lemma_cache_recording_step(c0, cprev, cnow, ips@, j as int, name@);
                } else {
                    if !cprev.dom().contains(ip) && cprev.dom().len() >= CACHE_CAPACITY {
                        let e = choose|e: u32|
                            cprev.dom().contains(e) && cnow == cprev.remove(e).insert(ip, owned@);
                        assert(cnow.dom() =~= cprev.dom().remove(e).insert(ip));
                        vstd::set::axiom_set_remove_len(cprev.dom(), e);
                        vstd::set::axiom_set_insert_len(cprev.dom().remove(e), ip);
                    } else if !cprev.dom().contains(ip) {
                        assert(cnow == cprev.insert(ip, owned@));
                        assert(cnow.dom() =~= cprev.dom().insert(ip));
                        vstd::set::axiom_set_insert_len(cprev.dom(), ip);
                    }
                }
            }
            j = j + 1;
        }
    }

    /// Record one successful AAAA resolution; the IPv6 counterpart of
    /// `record_reverse_v4`.
    pub fn record_reverse_v6(&mut self, ips: &Vec<u128>, name: &Vec<u8>)
        requires
            old(self).wf(),
        ensures
            final(self).wf(),
            final(self).concurrency_limit == old(self).concurrency_limit,
            final(self).resolver == old(self).resolver,
            final(self).ttl == old(self).ttl,
            final(self).reverse_mapping_v4 == old(self).reverse_mapping_v4,
            lru6_contents(old(self).reverse_mapping_v6).dom().len() + ips@.len() <= CACHE_CAPACITY
                ==> cache_recording(
                lru6_contents(old(self).reverse_mapping_v6),
                lru6_contents(final(self).reverse_mapping_v6),
                ips@,
                ips@.len() as int,
                name@,
            ),
    {
        let ghost c0 = lru6_contents(self.reverse_mapping_v6);
        let ghost np = c0.dom().len() + ips@.len() <= CACHE_CAPACITY;
        let mut j: usize = 0;
        while j < ips.len()
            invariant
                j <= ips@.len(),
                self.wf(),
                self.concurrency_limit == old(self).concurrency_limit,
                self.resolver == old(self).resolver,
                self.ttl == old(self).ttl,
                self.reverse_mapping_v4 == old(self).reverse_mapping_v4,
                np == (c0.dom().len() + ips@.len() <= CACHE_CAPACITY),
                c0 == lru6_contents(old(self).reverse_mapping_v6),
                np ==> lru6_contents(self.reverse_mapping_v6).dom().len() <= c0.dom().len() + j,
                np ==> cache_recording(c0, lru6_contents(self.reverse_mapping_v6), ips@, j as int, name@),
            decreases ips@.len() - j,
        {
            let ip = ips[j];
            let owned = crate::dns_codec::copy_bytes(name);
            let ghost cprev = lru6_contents(self.reverse_mapping_v6);
            lru6_get_or_insert(&mut self.reverse_mapping_v6, ip, owned);
            proof {
                let cnow = lru6_contents(self.reverse_mapping_v6);
                if np {
                    assert(cprev.dom().len() < CACHE_CAPACITY);
                    if cprev.dom().contains(ip) {
                        assert(cnow == cprev);
                    } else {
                        assert(cnow == cprev.insert(ip, owned@));
                        assert(cnow.dom() =~= cprev.dom().insert(ip));
                        vstd::set::axiom_set_insert_len(cprev.dom(), ip);
                    }
                    lemma_cache_recording_step(c0, cprev, cnow, ips@, j as int, name@);
                } else {
                    if !cprev.dom().contains(ip) && cprev.dom().len() >= CACHE_CAPACITY {
                        let e = choose|e: u128|
                            cprev.dom().contains(e) && cnow == cprev.remove(e).insert(ip, owned@);
                        assert(cnow.dom() =~= cprev.dom().remove(e).insert(ip));
                        vstd::set::axiom_set_remove_len(cprev.dom(), e);
                        vstd::set::axiom_set_insert_len(cprev.dom().remove(e), ip);
                    } else if !cprev.dom().contains(ip) {
                        assert(cnow == cprev.insert(ip, owned@));
                        assert(cnow.dom() =~= cprev.dom().insert(ip));
                        vstd::set::axiom_set_insert_len(cprev.dom(), ip);
                    }
                }
            }
            j = j + 1;
        }
    }
}

/// Every answer the handler builds is a well-formed record: it carries a
/// question's (valid) name and a four- or sixteen-byte address.
pub proof fn lemma_spec_answers_valid(
    qs: Seq<QuestionView>,
    outs: Seq<ResolveOutcome>,
    ttl: u32,
    i: int,
)
    requires
        0 <= i,
        forall|k: int| 0 <= k < qs.len() ==> crate::dns_codec::valid_question(#[trigger] qs[k]),
    ensures
        forall|k: int|
            0 <= k < spec_answers(qs, outs, ttl, i).len() ==> crate::dns_codec::valid_answer(
                #[trigger] spec_answers(qs, outs, ttl, i)[k],
            ),
    decreases qs.len() - i,
{
    if i < qs.len() {
        lemma_spec_answers_valid(qs, outs, ttl, i + 1);
        let head = spec_answers_of(qs[i], outs[i], ttl);
        let tail = spec_answers(qs, outs, ttl, i + 1);
        assert forall|k: int|
            0 <= k < spec_answers(qs, outs, ttl, i).len() implies crate::dns_codec::valid_answer(
            #[trigger] spec_answers(qs, outs, ttl, i)[k],
        ) by {
            if k < head.len() {
                assert(spec_answers(qs, outs, ttl, i)[k] == head[k]);
                assert(crate::dns_codec::valid_name(qs[i].name));
            } else {
                assert(spec_answers(qs, outs, ttl, i)[k] == tail[k - head.len()]);
            }
        }
    }
}

/// DNS request/response round trip: the response to a well-formed query
/// encodes to bytes that parse back to exactly that response, whose
/// question section equals the query's and whose answer records match the
/// resolver's addresses with the configured TTL.
pub proof fn lemma_dns_response_round_trip(m: MessageView, outs: Seq<ResolveOutcome>, ttl: u32)
    requires
        valid_message(m),
        spec_answers(m.questions, outs, ttl, 0).len() < 0x10000,
    ensures
        spec_parse_message(spec_enc_message(spec_response(m, outs, ttl))) == Some(
            spec_response(m, outs, ttl),
        ),
        spec_response(m, outs, ttl).questions == m.questions,
        spec_response(m, outs, ttl).answers == spec_answers(m.questions, outs, ttl, 0),
{
    lemma_spec_answers_valid(m.questions, outs, ttl, 0);
    crate::dns_codec::lemma_parse_enc_message(spec_response(m, outs, ttl));
}


/// Append the answer records for one question: one per address on an A or
/// AAAA success, nothing otherwise.
fn append_answers_of(q: &DnsQuestion, out: &ResolveOutcome, ttl: u32, answers: &mut Vec<DnsAnswer>)
    ensures
        final(answers).deep_view() == old(answers).deep_view() + spec_answers_of(q@, *out, ttl),
{
    let ghost aprev = answers.deep_view();
    let ghost head = spec_answers_of(q@, *out, ttl);
    if q.qtype == RTYPE_A {
        match out {
            ResolveOutcome::Ipv4(ips) => {
                let mut k: usize = 0;
                while k < ips.len()
                    invariant
                        k <= ips@.len(),
                        q.qtype == RTYPE_A,
                        *out matches ResolveOutcome::Ipv4(v) && v == ips,
                        head == spec_answers_of(q@, *out, ttl),
                        answers.deep_view() == aprev + head.take(k as int),
                    decreases ips@.len() - k,
                {
                    let mut rd: Vec<u8> = Vec::new();
                    push_u32(&mut rd, ips[k]);
                    let name_copy = crate::dns_codec::copy_bytes(&q.name);
                    proof {
                        assert(rd@ =~= enc_u32(ips@[k as int]));
                        assert(head[k as int] == AnswerView {
                            name: q@.name,
                            rtype: RTYPE_A,
                            ttl,
                            rdata: enc_u32(ips@[k as int]),
                        });
                    }
                    let ghost vprev = answers@;
                    let ghost dprev = answers.deep_view();
                    answers.push(DnsAnswer { name: name_copy, rtype: RTYPE_A, ttl, rdata: rd });
                    proof {
                        assert(answers@ == vprev.push(answers@.last()));
                        assert(answers@.last().deep_view() == head[k as int]);
                        assert(answers.deep_view() =~= dprev.push(
                            answers@.last().deep_view(),
                        ));
                        assert(head.take(k + 1) =~= head.take(k as int).push(head[k as int]));
                        assert(answers.deep_view() =~= aprev + head.take(k + 1));
                    }
                    k = k + 1;
                }
                proof {
                    assert(answers.deep_view() =~= aprev + head);
                }
            },
            _ => {
                proof {
                    assert(answers.deep_view() =~= aprev + head);
                }
            },
        }
    } else if q.qtype == RTYPE_AAAA {
        match out {
            ResolveOutcome::Ipv6(ips) => {
                let mut k: usize = 0;
                while k < ips.len()
                    invariant
                        k <= ips@.len(),
                        q.qtype == RTYPE_AAAA,
                        *out matches ResolveOutcome::Ipv6(v) && v == ips,
                        head == spec_answers_of(q@, *out, ttl),
                        answers.deep_view() == aprev + head.take(k as int),
                    decreases ips@.len() - k,
                {
                    let mut rd: Vec<u8> = Vec::new();
                    push_u128(&mut rd, ips[k]);
                    let name_copy = crate::dns_codec::copy_bytes(&q.name);
                    proof {
                        assert(rd@ =~= enc_u128(ips@[k as int]));
                        assert(head[k as int] == AnswerView {
                            name: q@.name,
                            rtype: RTYPE_AAAA,
                            ttl,
                            rdata: enc_u128(ips@[k as int]),
                        });
                    }
                    let ghost vprev = answers@;
                    let ghost dprev = answers.deep_view();
                    answers.push(DnsAnswer { name: name_copy, rtype: RTYPE_AAAA, ttl, rdata: rd });
                    proof {
                        assert(answers@ == vprev.push(answers@.last()));
                        assert(answers@.last().deep_view() == head[k as int]);
                        assert(answers.deep_view() =~= dprev.push(
                            answers@.last().deep_view(),
                        ));
                        assert(head.take(k + 1) =~= head.take(k as int).push(head[k as int]));
                        assert(answers.deep_view() =~= aprev + head.take(k + 1));
                    }
                    k = k + 1;
                }
                proof {
                    assert(answers.deep_view() =~= aprev + head);
                }
            },
            _ => {
                proof {
                    assert(answers.deep_view() =~= aprev + head);
                }
            },
        }
    } else {
        proof {
            assert(answers.deep_view() =~= aprev + head);
        }
    }
}

/// The response code after one question: unchanged on success, NXDOMAIN on
/// a failed resolution, NOTIMP on an unsupported query type.
pub open spec fn spec_rcode_step(q: QuestionView, out: ResolveOutcome, cur: u16) -> u16 {
    if q.qtype == RTYPE_A {
        match out {
            ResolveOutcome::Ipv4(_) => cur,
            _ => RCODE_NXDOMAIN,
        }
    } else if q.qtype == RTYPE_AAAA {
        match out {
            ResolveOutcome::Ipv6(_) => cur,
            _ => RCODE_NXDOMAIN,
        }
    } else {
        RCODE_NOTIMP
    }
}

/// Accumulate the response code over one question.
fn rcode_step(q: &DnsQuestion, out: &ResolveOutcome, cur: u16) -> (r: u16)
    ensures
        r == spec_rcode_step(q@, *out, cur),
{
    if q.qtype == RTYPE_A {
        match out {
            ResolveOutcome::Ipv4(_) => cur,
            _ => RCODE_NXDOMAIN,
        }
    } else if q.qtype == RTYPE_AAAA {
        match out {
            ResolveOutcome::Ipv6(_) => cur,
            _ => RCODE_NXDOMAIN,
        }
    } else {
        RCODE_NOTIMP
    }
}

impl DnsDatagramHandler {
    /// Record a question's resolved addresses in the reverse cache of its
    /// family: each address maps to the lowercased queried name, inserted
    /// only if absent, the caches staying within their bound.
    fn record_outcome(&mut self, q: &DnsQuestion, out: &ResolveOutcome)
        requires
            old(self).wf(),
        ensures
            final(self).wf(),
            final(self).concurrency_limit == old(self).concurrency_limit,
            final(self).resolver == old(self).resolver,
            final(self).ttl == old(self).ttl,
    {
        if q.qtype == RTYPE_A {
            match out {
                ResolveOutcome::Ipv4(ips) => {
                    let lower = crate::dns_codec::dotted_lower_name(&q.name);
                    self.record_reverse_v4(ips, &lower);
                },
                _ => {},
            }
        } else if q.qtype == RTYPE_AAAA {
            match out {
                ResolveOutcome::Ipv6(ips) => {
                    let lower = crate::dns_codec::dotted_lower_name(&q.name);
                    self.record_reverse_v6(ips, &lower);
                },
                _ => {},
            }
        }
    }

    /// Serve one query packet, given the resolver's outcome for each of
    /// its questions: decode, build the answers and accumulated response
    /// code, record every resolved address in the reverse caches, and
    /// encode the response. A malformed packet is dropped silently.
    pub fn handle_query(&mut self, buf: &Vec<u8>, outcomes: &Vec<ResolveOutcome>) -> (r: Option<
        Vec<u8>,
    >)
        requires
            old(self).wf(),
            match spec_parse_message(buf@) {
                Some(m) => outcomes@.len() == m.questions.len() && spec_answers(
                    m.questions,
                    outcomes@,
                    old(self).ttl,
                    0,
                ).len() < 0x10000,
                None => true,
            },
        ensures
            final(self).wf(),
            final(self).ttl == old(self).ttl,
            final(self).resolver == old(self).resolver,
            final(self).concurrency_limit == old(self).concurrency_limit,
            match spec_parse_message(buf@) {
                Some(m) => r matches Some(out) && out@ == spec_enc_message(
                    spec_response(m, outcomes@, old(self).ttl),
                ),
                None => r is None && *final(self) == *old(self),
            },
    {
        let m = match parse_message(buf) {
            Some(m) => m,
            None => {
                return None;
            },
        };
        let ghost mv = m@;
        proof {
            crate::dns_codec::lemma_parsed_message_valid(buf@);
        }
        let ttl = self.ttl;
        let mut answers: Vec<DnsAnswer> = Vec::new();
        let mut rcode: u16 = 0;
        let qlen = m.questions.len();
        let mut i: usize = 0;
        while i < qlen
            invariant
                i <= qlen,
                qlen == m.questions@.len(),
                mv == m@,
                outcomes@.len() == mv.questions.len(),
                self.wf(),
                self.ttl == old(self).ttl,
                self.resolver == old(self).resolver,
                self.concurrency_limit == old(self).concurrency_limit,
                ttl == old(self).ttl,
                answers.deep_view() + spec_answers(mv.questions, outcomes@, ttl, i as int)
                    == spec_answers(mv.questions, outcomes@, ttl, 0),
                spec_rcode(mv.questions, outcomes@, i as int, rcode) == spec_rcode(
                    mv.questions,
                    outcomes@,
                    0,
                    0,
                ),
            decreases qlen - i,
        {
            let q = &m.questions[i];
            proof {
                assert(mv.questions[i as int] == m.questions@[i as int]@);
            }
            let ghost aprev = answers.deep_view();
            self.record_outcome(q, &outcomes[i]);
            append_answers_of(q, &outcomes[i], ttl, &mut answers);
            rcode = rcode_step(q, &outcomes[i], rcode);
            proof {
                assert(answers.deep_view() + spec_answers(mv.questions, outcomes@, ttl, i + 1)
                    =~= aprev + spec_answers(mv.questions, outcomes@, ttl, i as int));
            }
            i = i + 1;
        }
        proof {
            assert(answers.deep_view() + spec_answers(mv.questions, outcomes@, ttl, qlen as int)
                =~= answers.deep_view());
            assert(answers.deep_view() == spec_answers(mv.questions, outcomes@, ttl, 0));
        }
        let flags = ((m.flags | 0x8000) & 0xfff0) | (rcode & 0xf);
        let resp = DnsMessageModel { id: m.id, flags, questions: m.questions, answers };
        proof {
            lemma_spec_answers_valid(mv.questions, outcomes@, ttl, 0);
            assert(valid_message(resp@));
            assert(resp@ == spec_response(mv, outcomes@, ttl));
        }
        let out = encode_message(&resp);
        Some(out)
    }
}

} // verus!
