//! The DNS message codec the handler speaks: headers, question sections
//! and A/AAAA answer records, with uncompressed names. The encoder and the
//! parser are verified against one mathematical grammar, and encoding a
//! well-formed message parses back to exactly that message.

use vstd::prelude::*;

use crate::ip_packet::{dec_u16, dec_u32, enc_u16, enc_u32};

verus! {

/// The A record type code.
pub const RTYPE_A: u16 = 1;

/// The AAAA record type code.
pub const RTYPE_AAAA: u16 = 28;

/// Abstract view of one question.
pub struct QuestionView {
    pub name: Seq<u8>,
    pub qtype: u16,
    pub qclass: u16,
}

/// Abstract view of one answer record.
pub struct AnswerView {
    pub name: Seq<u8>,
    pub rtype: u16,
    pub ttl: u32,
    pub rdata: Seq<u8>,
}

/// Abstract view of a message: identifier, flags, questions, answers.
pub struct MessageView {
    pub id: u16,
    pub flags: u16,
    pub questions: Seq<QuestionView>,
    pub answers: Seq<AnswerView>,
}

/// One question: a wire-format name (labels, uncompressed, zero-byte
/// terminated), the query type and the query class.
pub struct DnsQuestion {
    pub name: Vec<u8>,
    pub qtype: u16,
    pub qclass: u16,
}

impl View for DnsQuestion {
    type V = QuestionView;

    open spec fn view(&self) -> QuestionView {
        QuestionView { name: self.name@, qtype: self.qtype, qclass: self.qclass }
    }
}

impl DeepView for DnsQuestion {
    type V = QuestionView;

    open spec fn deep_view(&self) -> QuestionView {
        self.view()
    }
}

/// One answer record, class IN.
pub struct DnsAnswer {
    pub name: Vec<u8>,
    pub rtype: u16,
    pub ttl: u32,
    pub rdata: Vec<u8>,
}

impl View for DnsAnswer {
    type V = AnswerView;

    open spec fn view(&self) -> AnswerView {
        AnswerView { name: self.name@, rtype: self.rtype, ttl: self.ttl, rdata: self.rdata@ }
    }
}

impl DeepView for DnsAnswer {
    type V = AnswerView;

    open spec fn deep_view(&self) -> AnswerView {
        self.view()
    }
}

/// A parsed message.
pub struct DnsMessageModel {
    pub id: u16,
    pub flags: u16,
    pub questions: Vec<DnsQuestion>,
    pub answers: Vec<DnsAnswer>,
}

impl View for DnsMessageModel {
    type V = MessageView;

    open spec fn view(&self) -> MessageView {
        MessageView {
            id: self.id,
            flags: self.flags,
            questions: self.questions.deep_view(),
            answers: self.answers.deep_view(),
        }
    }
}

/// A well-formed wire name: labels of 1 to 63 bytes, no compression
/// pointers, closed by the zero byte.
pub open spec fn valid_name(s: Seq<u8>) -> bool
    decreases s.len(),
{
    if s.len() == 0 {
        false
    } else if s[0] == 0 {
        s.len() == 1
    } else {
        1 <= s[0] <= 63 && s.len() >= 1 + s[0] && valid_name(s.skip(1 + s[0] as int))
    }
}

pub open spec fn valid_question(q: QuestionView) -> bool {
    valid_name(q.name)
}

pub open spec fn valid_answer(a: AnswerView) -> bool {
    valid_name(a.name) && a.rdata.len() < 0x10000
}

pub open spec fn valid_message(m: MessageView) -> bool {
    &&& m.questions.len() < 0x10000
    &&& m.answers.len() < 0x10000
    &&& forall|i: int| 0 <= i < m.questions.len() ==> valid_question(#[trigger] m.questions[i])
    &&& forall|i: int| 0 <= i < m.answers.len() ==> valid_answer(#[trigger] m.answers[i])
}

/// Wire bytes of one question.
pub open spec fn spec_enc_question(q: QuestionView) -> Seq<u8> {
    q.name + enc_u16(q.qtype) + enc_u16(q.qclass)
}

/// Wire bytes of `qs[i..]`, in order.
pub open spec fn spec_enc_questions(qs: Seq<QuestionView>, i: int) -> Seq<u8>
    decreases qs.len() - i,
    when 0 <= i
{
    if i >= qs.len() {
        Seq::empty()
    } else {
        spec_enc_question(qs[i]) + spec_enc_questions(qs, i + 1)
    }
}

/// Wire bytes of one answer record (class IN).
pub open spec fn spec_enc_answer(a: AnswerView) -> Seq<u8> {
    a.name + enc_u16(a.rtype) + enc_u16(1) + enc_u32(a.ttl) + enc_u16(a.rdata.len() as u16)
        + a.rdata
}

/// Wire bytes of `ans[i..]`, in order.
pub open spec fn spec_enc_answers(ans: Seq<AnswerView>, i: int) -> Seq<u8>
    decreases ans.len() - i,
    when 0 <= i
{
    if i >= ans.len() {
        Seq::empty()
    } else {
        spec_enc_answer(ans[i]) + spec_enc_answers(ans, i + 1)
    }
}

/// Wire bytes of a whole message: the twelve-byte header (authority and
/// additional counts zero), the question section, the answer section.
pub open spec fn spec_enc_message(m: MessageView) -> Seq<u8> {
    enc_u16(m.id) + enc_u16(m.flags) + enc_u16(m.questions.len() as u16) + enc_u16(
        m.answers.len() as u16,
    ) + enc_u16(0) + enc_u16(0) + spec_enc_questions(m.questions, 0) + spec_enc_answers(
        m.answers,
        0,
    )
}

/// The length of the wire name at the head of `s`, when one is there.
pub open spec fn spec_parse_name(s: Seq<u8>) -> Option<int>
    decreases s.len(),
{
    if s.len() == 0 {
        None
    } else if s[0] == 0 {
        Some(1)
    } else if 1 <= s[0] <= 63 && s.len() >= 1 + s[0] {
        match spec_parse_name(s.skip(1 + s[0] as int)) {
            Some(n) => Some(1 + s[0] + n),
            None => None,
        }
    } else {
        None
    }
}

/// A name at the head of a byte stream parses back as itself, whatever
/// follows it.
pub proof fn lemma_parse_name_of_valid(v: Seq<u8>, rest: Seq<u8>)
    requires
        valid_name(v),
    ensures
        spec_parse_name(v + rest) == Some(v.len() as int),
    decreases v.len(),
{
    let s = v + rest;
    if v[0] == 0 {
        assert(s[0] == 0);
        assert(v.len() == 1);
    } else {
        let l = 1 + v[0] as int;
        assert(s[0] == v[0]);
        assert(s.skip(l) =~= v.skip(l) + rest);
        lemma_parse_name_of_valid(v.skip(l), rest);
        assert(v.skip(l).len() == v.len() - l);
    }
}

/// A parsed name prefix is a valid name.
pub proof fn lemma_parsed_name_valid(s: Seq<u8>)
    requires
        spec_parse_name(s) is Some,
    ensures
        1 <= spec_parse_name(s)->Some_0 <= s.len(),
        valid_name(s.take(spec_parse_name(s)->Some_0)),
    decreases s.len(),
{
    let n = spec_parse_name(s)->Some_0;
    if s[0] == 0 {
        assert(s.take(1)[0] == 0);
    } else {
        let l = 1 + s[0] as int;
        lemma_parsed_name_valid(s.skip(l));
        let m = spec_parse_name(s.skip(l))->Some_0;
        assert(s.take(n).skip(l) =~= s.skip(l).take(m));
        assert(s.take(n)[0] == s[0]);
    }
}

/// One question at the head of the stream: the name, then type and class.
pub open spec fn spec_parse_question(s: Seq<u8>) -> Option<(QuestionView, int)> {
    match spec_parse_name(s) {
        None => None,
        Some(nl) => if s.len() >= nl + 4 {
            Some(
                (
                    QuestionView { name: s.take(nl), qtype: dec_u16(s, nl), qclass: dec_u16(
                        s,
                        nl + 2,
                    ) },
                    nl + 4,
                ),
            )
        } else {
            None
        },
    }
}

/// `n` questions at the head of the stream, with the bytes they used.
pub open spec fn spec_parse_questions(s: Seq<u8>, n: int) -> Option<(Seq<QuestionView>, int)>
    decreases n,
    when n >= 0
{
    if n <= 0 {
        Some((Seq::empty(), 0))
    } else {
        match spec_parse_question(s) {
            None => None,
            Some((q, used)) => match spec_parse_questions(s.skip(used), n - 1) {
                None => None,
                Some((qs, used2)) => Some((seq![q] + qs, used + used2)),
            },
        }
    }
}

/// One answer record at the head of the stream.
pub open spec fn spec_parse_answer(s: Seq<u8>) -> Option<(AnswerView, int)> {
    match spec_parse_name(s) {
        None => None,
        Some(nl) => if s.len() >= nl + 10 && s.len() >= nl + 10 + dec_u16(s, nl + 8) {
            Some(
                (
                    AnswerView {
                        name: s.take(nl),
                        rtype: dec_u16(s, nl),
                        ttl: dec_u32(s, nl + 4),
                        rdata: s.subrange(nl + 10, nl + 10 + dec_u16(s, nl + 8)),
                    },
                    nl + 10 + dec_u16(s, nl + 8),
                ),
            )
        } else {
            None
        },
    }
}

/// `n` answer records at the head of the stream.
pub open spec fn spec_parse_answers(s: Seq<u8>, n: int) -> Option<(Seq<AnswerView>, int)>
    decreases n,
    when n >= 0
{
    if n <= 0 {
        Some((Seq::empty(), 0))
    } else {
        match spec_parse_answer(s) {
            None => None,
            Some((a, used)) => match spec_parse_answers(s.skip(used), n - 1) {
                None => None,
                Some((ans, used2)) => Some((seq![a] + ans, used + used2)),
            },
        }
    }
}

/// Parse a whole message: header, question count many questions, answer
/// count many answers. Authority and additional records, and any trailing
/// bytes, are ignored.
pub open spec fn spec_parse_message(s: Seq<u8>) -> Option<MessageView> {
    if s.len() < 12 {
        None
    } else {
        match spec_parse_questions(s.skip(12), dec_u16(s, 4) as int) {
            None => None,
            Some((qs, u1)) => match spec_parse_answers(
                s.skip(12).skip(u1),
                dec_u16(s, 6) as int,
            ) {
                None => None,
                Some((ans, u2)) => Some(
                    MessageView { id: dec_u16(s, 0), flags: dec_u16(s, 2), questions: qs, answers: ans },
                ),
            },
        }
    }
}

/// A question encodes and parses back as itself, whatever follows it.
pub proof fn lemma_parse_enc_question(q: QuestionView, rest: Seq<u8>)
    requires
        valid_question(q),
    ensures
        spec_parse_question(spec_enc_question(q) + rest) == Some(
            (q, q.name.len() + 4 as int),
        ),
{
    let tail = enc_u16(q.qtype) + enc_u16(q.qclass) + rest;
    let s = spec_enc_question(q) + rest;
    assert(s =~= q.name + tail);
    lemma_parse_name_of_valid(q.name, tail);
    let nl = q.name.len() as int;
    assert(s.take(nl) =~= q.name);
    assert(s[nl] == (q.qtype / 256) as u8 && s[nl + 1] == (q.qtype % 256) as u8);
    assert(s[nl + 2] == (q.qclass / 256) as u8 && s[nl + 3] == (q.qclass % 256) as u8);
    crate::ip_packet::lemma_dec_enc_u16(s, nl, q.qtype);
    crate::ip_packet::lemma_dec_enc_u16(s, nl + 2, q.qclass);
}

/// A question list encodes and parses back as itself.
pub proof fn lemma_parse_enc_questions(qs: Seq<QuestionView>, i: int, rest: Seq<u8>)
    requires
        0 <= i <= qs.len(),
        forall|k: int| 0 <= k < qs.len() ==> valid_question(#[trigger] qs[k]),
    ensures
        spec_parse_questions(spec_enc_questions(qs, i) + rest, qs.len() - i) == Some(
            (qs.skip(i), spec_enc_questions(qs, i).len() as int),
        ),
    decreases qs.len() - i,
{
    if i >= qs.len() {
        assert(spec_enc_questions(qs, i) + rest =~= rest);
        assert(qs.skip(i) =~= Seq::<QuestionView>::empty());
    } else {
        let s = spec_enc_questions(qs, i) + rest;
        let tail_rest = spec_enc_questions(qs, i + 1) + rest;
        assert(s =~= spec_enc_question(qs[i]) + tail_rest);
        lemma_parse_enc_question(qs[i], tail_rest);
        let used = qs[i].name.len() + 4 as int;
        assert(spec_enc_question(qs[i]).len() == used);
        assert(s.skip(used) =~= tail_rest);
        lemma_parse_enc_questions(qs, i + 1, rest);
        assert(seq![qs[i]] + qs.skip(i + 1) =~= qs.skip(i));
    }
}

/// An answer record encodes and parses back as itself, whatever follows.
pub proof fn lemma_parse_enc_answer(a: AnswerView, rest: Seq<u8>)
    requires
        valid_answer(a),
    ensures
        spec_parse_answer(spec_enc_answer(a) + rest) == Some(
            (a, a.name.len() + 10 + a.rdata.len() as int),
        ),
{
    let rl = a.rdata.len() as u16;
    let tail = enc_u16(a.rtype) + enc_u16(1) + enc_u32(a.ttl) + enc_u16(rl) + a.rdata + rest;
    let s = spec_enc_answer(a) + rest;
    assert(s =~= a.name + tail);
    lemma_parse_name_of_valid(a.name, tail);
    let nl = a.name.len() as int;
    assert(s.take(nl) =~= a.name);
    assert(s[nl] == (a.rtype / 256) as u8 && s[nl + 1] == (a.rtype % 256) as u8);
    crate::ip_packet::lemma_dec_enc_u16(s, nl, a.rtype);
    assert(s[nl + 8] == (rl / 256) as u8 && s[nl + 9] == (rl % 256) as u8);
    crate::ip_packet::lemma_dec_enc_u16(s, nl + 8, rl);
    assert(s.subrange(nl + 4, nl + 8) =~= enc_u32(a.ttl));
    crate::ip_packet::lemma_dec_enc_u32(s, nl + 4, a.ttl);
    assert(s.subrange(nl + 10, nl + 10 + rl as int) =~= a.rdata);
}

/// An answer list encodes and parses back as itself.
pub proof fn lemma_parse_enc_answers(ans: Seq<AnswerView>, i: int, rest: Seq<u8>)
    requires
        0 <= i <= ans.len(),
        forall|k: int| 0 <= k < ans.len() ==> valid_answer(#[trigger] ans[k]),
    ensures
        spec_parse_answers(spec_enc_answers(ans, i) + rest, ans.len() - i) == Some(
            (ans.skip(i), spec_enc_answers(ans, i).len() as int),
        ),
    decreases ans.len() - i,
{
    if i >= ans.len() {
        assert(spec_enc_answers(ans, i) + rest =~= rest);
        assert(ans.skip(i) =~= Seq::<AnswerView>::empty());
    } else {
        let s = spec_enc_answers(ans, i) + rest;
        let tail_rest = spec_enc_answers(ans, i + 1) + rest;
        assert(s =~= spec_enc_answer(ans[i]) + tail_rest);
        lemma_parse_enc_answer(ans[i], tail_rest);
        let used = ans[i].name.len() + 10 + ans[i].rdata.len() as int;
        assert(spec_enc_answer(ans[i]).len() == used);
        assert(s.skip(used) =~= tail_rest);
        lemma_parse_enc_answers(ans, i + 1, rest);
        assert(seq![ans[i]] + ans.skip(i + 1) =~= ans.skip(i));
    }
}

/// Round trip: a well-formed message encodes to bytes that parse back to
/// exactly that message, question section and answer section preserved.
pub proof fn lemma_parse_enc_message(m: MessageView)
    requires
        valid_message(m),
    ensures
        spec_parse_message(spec_enc_message(m)) == Some(m),
{
    let s = spec_enc_message(m);
    let qenc = spec_enc_questions(m.questions, 0);
    let aenc = spec_enc_answers(m.answers, 0);
    let hdr = enc_u16(m.id) + enc_u16(m.flags) + enc_u16(m.questions.len() as u16) + enc_u16(
        m.answers.len() as u16,
    ) + enc_u16(0) + enc_u16(0);
    assert(s =~= hdr + (qenc + aenc));
    assert(s.len() >= 12);
    assert(s[0] == (m.id / 256) as u8 && s[1] == (m.id % 256) as u8);
    crate::ip_packet::lemma_dec_enc_u16(s, 0, m.id);
    assert(s[2] == (m.flags / 256) as u8 && s[3] == (m.flags % 256) as u8);
    crate::ip_packet::lemma_dec_enc_u16(s, 2, m.flags);
    let qn = m.questions.len() as u16;
    let an = m.answers.len() as u16;
    assert(s[4] == (qn / 256) as u8 && s[5] == (qn % 256) as u8);
    crate::ip_packet::lemma_dec_enc_u16(s, 4, qn);
    assert(s[6] == (an / 256) as u8 && s[7] == (an % 256) as u8);
    crate::ip_packet::lemma_dec_enc_u16(s, 6, an);
    assert(s.skip(12) =~= qenc + aenc);
    lemma_parse_enc_questions(m.questions, 0, aenc);
    assert(m.questions.skip(0) =~= m.questions);
    let u1 = qenc.len() as int;
    assert(s.skip(12).skip(u1) =~= aenc + Seq::<u8>::empty());
    lemma_parse_enc_answers(m.answers, 0, Seq::empty());
    assert(m.answers.skip(0) =~= m.answers);
}

/// Copy a byte range out of a buffer.
fn copy_range(buf: &Vec<u8>, start: usize, count: usize) -> (r: Vec<u8>)
    requires
        start + count <= buf@.len(),
    ensures
        r@ == buf@.subrange(start as int, start + count),
{
    let nb = buf.len();
    let mut r: Vec<u8> = Vec::new();
    let mut k: usize = 0;
    while k < count
        invariant
            k <= count,
            nb == buf@.len(),
            start + count <= nb,
            r@ == buf@.subrange(start as int, start + k),
        decreases count - k,
    {
        r.push(buf[start + k]);
        assert(r@ =~= buf@.subrange(start as int, start + k + 1));
        k = k + 1;
    }
    r
}

/// ASCII lowercase of one byte.
pub open spec fn spec_lower(b: u8) -> u8 {
    if 65 <= b <= 90 {
        (b + 32) as u8
    } else {
        b
    }
}

/// The presentation form of a wire name: its labels lowercased and joined
/// with dots, `example.com` style. Malformed tails fall off silently.
pub open spec fn spec_dotted_lower(s: Seq<u8>) -> Seq<u8>
    decreases s.len(),
{
    if s.len() == 0 {
        Seq::empty()
    } else if s[0] == 0 || s[0] > 63 || s.len() < 1 + s[0] {
        Seq::empty()
    } else {
        let lab = s.subrange(1, 1 + s[0] as int).map_values(|b: u8| spec_lower(b));
        let rest = spec_dotted_lower(s.skip(1 + s[0] as int));
        if rest.len() == 0 {
            lab
        } else {
            lab + seq![46u8] + rest
        }
    }
}

/// ASCII lowercase of one byte.
fn lower_byte(b: u8) -> (r: u8)
    ensures
        r == spec_lower(b),
{
    if b >= 65 && b <= 90 {
        b + 32
    } else {
        b
    }
}

/// The lowercased dotted form of the wire name tail starting at `pos`.
fn dotted_lower_from(name: &Vec<u8>, pos: usize) -> (r: Vec<u8>)
    requires
        pos <= name@.len(),
    ensures
        r@ == spec_dotted_lower(name@.skip(pos as int)),
    decreases name@.len() - pos,
{
    let n = name.len();
    let ghost s = name@.skip(pos as int);
    if pos >= n {
        let empty: Vec<u8> = Vec::new();
        return empty;
    }
    let b = name[pos];
    assert(s[0] == b);
    if b == 0 || b > 63 {
        let empty: Vec<u8> = Vec::new();
        return empty;
    }
    if n - pos < 1 + b as usize {
        assert(s.len() < 1 + b);
        let empty: Vec<u8> = Vec::new();
        return empty;
    }
    let mut lab: Vec<u8> = Vec::new();
    let mut k: usize = 0;
    while k < b as usize
        invariant
            k <= b as usize,
            n == name@.len(),
            pos + 1 + b as usize <= n,
            s == name@.skip(pos as int),
            lab@.len() == k,
            forall|t: int| 0 <= t < k ==> lab@[t] == spec_lower(s[1 + t]),
        decreases b as usize - k,
    {
        lab.push(lower_byte(name[pos + 1 + k]));
        assert(s[1 + k as int] == name@[pos + 1 + k]);
        k = k + 1;
    }
    proof {
        assert(lab@ =~= s.subrange(1, 1 + b as int).map_values(|x: u8| spec_lower(x)));
    }
    let next = pos + 1 + b as usize;
    let rest = dotted_lower_from(name, next);
    proof {
        assert(name@.skip(next as int) =~= s.skip(1 + b as int));
    }
    if rest.len() == 0 {
        lab
    } else {
        let ghost lab0 = lab@;
        lab.push(46);
        crate::ip_packet::push_bytes(&mut lab, &rest);
        proof {
            assert(lab@ =~= lab0 + seq![46u8] + rest@);
        }
        lab
    }
}

/// The lowercased dotted presentation of a wire name: what the resolver
/// is asked for and what the reverse caches store.
pub fn dotted_lower_name(name: &Vec<u8>) -> (r: Vec<u8>)
    ensures
        r@ == spec_dotted_lower(name@),
{
    let r = dotted_lower_from(name, 0);
    proof {
        assert(name@.skip(0) =~= name@);
    }
    r
}

/// Every question parsed out of a byte stream carries a valid name, and
/// exactly `n` of them come out.
pub proof fn lemma_parsed_questions_valid(s: Seq<u8>, n: int)
    requires
        n >= 0,
        spec_parse_questions(s, n) is Some,
    ensures
        spec_parse_questions(s, n)->Some_0.0.len() == n,
        forall|i: int|
            0 <= i < n ==> valid_question(#[trigger] spec_parse_questions(s, n)->Some_0.0[i]),
    decreases n,
{
    if n > 0 {
        let (q, used) = spec_parse_question(s)->Some_0;
        lemma_parsed_name_valid(s);
        lemma_parsed_questions_valid(s.skip(used), n - 1);
        let qs = spec_parse_questions(s.skip(used), n - 1)->Some_0.0;
        assert forall|i: int|
            0 <= i < n implies valid_question(
            #[trigger] spec_parse_questions(s, n)->Some_0.0[i],
        ) by {
            if i > 0 {
                assert((seq![q] + qs)[i] == qs[i - 1]);
            }
        }
    }
}

/// A parsed message carries only valid questions, and no more than the
/// 16-bit question count of them.
pub proof fn lemma_parsed_message_valid(s: Seq<u8>)
    requires
        spec_parse_message(s) is Some,
    ensures
        spec_parse_message(s)->Some_0.questions.len() < 0x10000,
        forall|i: int|
            0 <= i < spec_parse_message(s)->Some_0.questions.len() ==> valid_question(
                #[trigger] spec_parse_message(s)->Some_0.questions[i],
            ),
{
    lemma_parsed_questions_valid(s.skip(12), dec_u16(s, 4) as int);
}

/// Copy a whole byte buffer.
pub fn copy_bytes(v: &Vec<u8>) -> (r: Vec<u8>)
    ensures
        r@ == v@,
{
    let r = copy_range(v, 0, v.len());
    assert(r@ =~= v@);
    r
}

/// Length of the wire name starting at `pos`, when one is there.
fn parse_name_len(buf: &Vec<u8>, pos: usize) -> (r: Option<usize>)
    requires
        pos <= buf@.len(),
    ensures
        match r {
            Some(l) => spec_parse_name(buf@.skip(pos as int)) == Some(l as int) && 1 <= l && pos
                + l <= buf@.len(),
            None => spec_parse_name(buf@.skip(pos as int)) is None,
        },
    decreases buf@.len() - pos,
{
    let n = buf.len();
    let ghost s = buf@.skip(pos as int);
    if pos >= n {
        return None;
    }
    let b = buf[pos];
    assert(s[0] == b);
    if b == 0 {
        return Some(1);
    }
    if b > 63 {
        return None;
    }
    if n - pos < 1 + b as usize {
        assert(s.len() < 1 + b);
        return None;
    }
    let next = pos + 1 + b as usize;
    assert(buf@.skip(next as int) =~= s.skip(1 + b as int));
    match parse_name_len(buf, next) {
        Some(l2) => Some(1 + b as usize + l2),
        None => None,
    }
}

/// Parse the question starting at `pos`.
fn parse_question_at(buf: &Vec<u8>, pos: usize) -> (r: Option<(DnsQuestion, usize)>)
    requires
        pos <= buf@.len(),
    ensures
        match r {
            Some(p) => spec_parse_question(buf@.skip(pos as int)) == Some(
                (p.0@, p.1 as int),
            ) && 1 <= p.1 && pos + p.1 <= buf@.len(),
            None => spec_parse_question(buf@.skip(pos as int)) is None,
        },
{
    let ghost s = buf@.skip(pos as int);
    let nl = match parse_name_len(buf, pos) {
        Some(nl) => nl,
        None => {
            return None;
        },
    };
    let n = buf.len();
    if n - pos - nl < 4 {
        assert(s.len() < nl + 4);
        return None;
    }
    let name = copy_range(buf, pos, nl);
    assert(name@ =~= s.take(nl as int));
    let qtype = crate::ip_packet::read_u16(buf, pos + nl);
    let qclass = crate::ip_packet::read_u16(buf, pos + nl + 2);
    proof {
        assert(s[nl as int] == buf@[pos + nl] && s[nl + 1] == buf@[pos + nl + 1]);
        assert(s[nl + 2] == buf@[pos + nl + 2] && s[nl + 3] == buf@[pos + nl + 3]);
    }
    Some((DnsQuestion { name, qtype, qclass }, nl + 4))
}

/// Parse `n` questions starting at `pos`.
fn parse_questions_at(buf: &Vec<u8>, pos: usize, n: u16) -> (r: Option<(Vec<DnsQuestion>, usize)>)
    requires
        pos <= buf@.len(),
    ensures
        match r {
            Some(p) => spec_parse_questions(buf@.skip(pos as int), n as int) == Some(
                (p.0.deep_view(), p.1 as int),
            ) && pos + p.1 <= buf@.len(),
            None => spec_parse_questions(buf@.skip(pos as int), n as int) is None,
        },
    decreases n,
{
    if n == 0 {
        let empty: Vec<DnsQuestion> = Vec::new();
        assert(empty.deep_view() =~= Seq::<QuestionView>::empty());
        return Some((empty, 0));
    }
    let (q, used) = match parse_question_at(buf, pos) {
        Some(p) => p,
        None => {
            return None;
        },
    };
    let nb = buf.len();
    assert(pos + used <= nb);
    assert(buf@.skip(pos + used as int) =~= buf@.skip(pos as int).skip(used as int));
    match parse_questions_at(buf, pos + used, n - 1) {
        Some((mut qs, used2)) => {
            let ghost before = qs.deep_view();
            qs.insert(0, q);
            assert(qs.deep_view() =~= seq![q@] + before);
            Some((qs, used + used2))
        },
        None => None,
    }
}

/// Parse the answer record starting at `pos`.
fn parse_answer_at(buf: &Vec<u8>, pos: usize) -> (r: Option<(DnsAnswer, usize)>)
    requires
        pos <= buf@.len(),
    ensures
        match r {
            Some(p) => spec_parse_answer(buf@.skip(pos as int)) == Some(
                (p.0@, p.1 as int),
            ) && 1 <= p.1 && pos + p.1 <= buf@.len(),
            None => spec_parse_answer(buf@.skip(pos as int)) is None,
        },
{
    let ghost s = buf@.skip(pos as int);
    let nl = match parse_name_len(buf, pos) {
        Some(nl) => nl,
        None => {
            return None;
        },
    };
    let n = buf.len();
    if n - pos - nl < 10 {
        assert(s.len() < nl + 10);
        return None;
    }
    let rtype = crate::ip_packet::read_u16(buf, pos + nl);
    let ttl = crate::ip_packet::read_u32(buf, pos + nl + 4);
    let rdlen = crate::ip_packet::read_u16(buf, pos + nl + 8);
    proof {
        assert forall|k: int| 0 <= k < 10 implies #[trigger] s[nl + k] == buf@[pos + nl + k] by {}
        assert(dec_u16(s, nl as int) == dec_u16(buf@, pos + nl as int));
        assert(dec_u16(s, nl + 8) == dec_u16(buf@, pos + nl + 8));
        assert(dec_u32(s, nl + 4) == dec_u32(buf@, pos + nl + 4));
    }
    if n - pos - nl - 10 < rdlen as usize {
        assert(s.len() < nl + 10 + dec_u16(s, nl + 8));
        return None;
    }
    let name = copy_range(buf, pos, nl);
    assert(name@ =~= s.take(nl as int));
    let rdata = copy_range(buf, pos + nl + 10, rdlen as usize);
    assert(rdata@ =~= s.subrange(nl + 10, nl + 10 + dec_u16(s, nl + 8)));
    Some((DnsAnswer { name, rtype, ttl, rdata }, nl + 10 + rdlen as usize))
}

/// Parse `n` answer records starting at `pos`.
fn parse_answers_at(buf: &Vec<u8>, pos: usize, n: u16) -> (r: Option<(Vec<DnsAnswer>, usize)>)
    requires
        pos <= buf@.len(),
    ensures
        match r {
            Some(p) => spec_parse_answers(buf@.skip(pos as int), n as int) == Some(
                (p.0.deep_view(), p.1 as int),
            ) && pos + p.1 <= buf@.len(),
            None => spec_parse_answers(buf@.skip(pos as int), n as int) is None,
        },
    decreases n,
{
    if n == 0 {
        let empty: Vec<DnsAnswer> = Vec::new();
        assert(empty.deep_view() =~= Seq::<AnswerView>::empty());
        return Some((empty, 0));
    }
    let (a, used) = match parse_answer_at(buf, pos) {
        Some(p) => p,
        None => {
            return None;
        },
    };
    let nb = buf.len();
    assert(pos + used <= nb);
    assert(buf@.skip(pos + used as int) =~= buf@.skip(pos as int).skip(used as int));
    match parse_answers_at(buf, pos + used, n - 1) {
        Some((mut ans, used2)) => {
            let ghost before = ans.deep_view();
            ans.insert(0, a);
            assert(ans.deep_view() =~= seq![a@] + before);
            Some((ans, used + used2))
        },
        None => None,
    }
}

/// Parse a whole message; `None` is a malformed message, which the
/// handler drops silently.
pub fn parse_message(buf: &Vec<u8>) -> (r: Option<DnsMessageModel>)
    ensures
        match r {
            Some(m) => spec_parse_message(buf@) == Some(m@),
            None => spec_parse_message(buf@) is None,
        },
{
    let n = buf.len();
    if n < 12 {
        return None;
    }
    let id = crate::ip_packet::read_u16(buf, 0);
    let flags = crate::ip_packet::read_u16(buf, 2);
    let qd = crate::ip_packet::read_u16(buf, 4);
    let an = crate::ip_packet::read_u16(buf, 6);
    let (questions, u1) = match parse_questions_at(buf, 12, qd) {
        Some(p) => p,
        None => {
            assert(buf@.skip(12) =~= buf@.skip(12int));
            return None;
        },
    };
    assert(buf@.skip(12 + u1 as int) =~= buf@.skip(12int).skip(u1 as int));
    let (answers, _u2) = match parse_answers_at(buf, 12 + u1, an) {
        Some(p) => p,
        None => {
            return None;
        },
    };
    Some(DnsMessageModel { id, flags, questions, answers })
}

/// Encode a message: the header with authority and additional counts
/// zero, the question section, the answer section.
pub fn encode_message(m: &DnsMessageModel) -> (r: Vec<u8>)
    requires
        valid_message(m@),
        m.questions@.len() < 0x10000,
        m.answers@.len() < 0x10000,
    ensures
        r@ == spec_enc_message(m@),
{
    let mut r: Vec<u8> = Vec::new();
    crate::ip_packet::push_u16(&mut r, m.id);
    crate::ip_packet::push_u16(&mut r, m.flags);
    crate::ip_packet::push_u16(&mut r, m.questions.len() as u16);
    crate::ip_packet::push_u16(&mut r, m.answers.len() as u16);
    crate::ip_packet::push_u16(&mut r, 0);
    crate::ip_packet::push_u16(&mut r, 0);
    let ghost hdr = r@;
    let qv = &m.questions;
    let mut i: usize = 0;
    while i < qv.len()
        invariant
            i <= qv@.len(),
            valid_message(m@),
            qv == m.questions,
            r@ + spec_enc_questions(m@.questions, i as int) == hdr + spec_enc_questions(
                m@.questions,
                0,
            ),
        decreases qv@.len() - i,
    {
        let q = &qv[i];
        let ghost before = r@;
        crate::ip_packet::push_bytes(&mut r, &q.name);
        crate::ip_packet::push_u16(&mut r, q.qtype);
        crate::ip_packet::push_u16(&mut r, q.qclass);
        proof {
            assert(m@.questions[i as int] == qv@[i as int]@);
            assert(r@ =~= before + spec_enc_question(m@.questions[i as int]));
            assert(r@ + spec_enc_questions(m@.questions, i + 1) =~= before + spec_enc_questions(
                m@.questions,
                i as int,
            ));
        }
        i = i + 1;
    }
    proof {
        assert(r@ + spec_enc_questions(m@.questions, qv@.len() as int) =~= r@);
    }
    let ghost after_q = r@;
    let av = &m.answers;
    let mut j: usize = 0;
    while j < av.len()
        invariant
            j <= av@.len(),
            valid_message(m@),
            av == m.answers,
            r@ + spec_enc_answers(m@.answers, j as int) == after_q + spec_enc_answers(
                m@.answers,
                0,
            ),
        decreases av@.len() - j,
    {
        let a = &av[j];
        let ghost before = r@;
        crate::ip_packet::push_bytes(&mut r, &a.name);
        crate::ip_packet::push_u16(&mut r, a.rtype);
        crate::ip_packet::push_u16(&mut r, 1);
        crate::ip_packet::push_u32(&mut r, a.ttl);
        proof {
            assert(m@.answers[j as int] == av@[j as int]@);
            assert(valid_answer(m@.answers[j as int]));
        }
        crate::ip_packet::push_u16(&mut r, a.rdata.len() as u16);
        crate::ip_packet::push_bytes(&mut r, &a.rdata);
        proof {
            assert(r@ =~= before + spec_enc_answer(m@.answers[j as int]));
            assert(r@ + spec_enc_answers(m@.answers, j + 1) =~= before + spec_enc_answers(
                m@.answers,
                j as int,
            ));
        }
        j = j + 1;
    }
    proof {
        assert(r@ + spec_enc_answers(m@.answers, av@.len() as int) =~= r@);
        assert(r@ =~= spec_enc_message(m@));
    }
    r
}

} // verus!
