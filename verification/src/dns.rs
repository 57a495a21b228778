//! The DNS side of resolving a host name: choosing a message id, encoding
//! the query for an `A` record and reading the address out of the reply.
//! Sending and receiving the datagrams is left to the caller.

use rand::Rng;
use trust_dns::op::Message as DnsMessage;
use trust_dns::op::{MessageType, OpCode, Query};
use vstd::prelude::*;

verus! {

#[verifier::external_type_specification]
#[verifier::external_body]
pub struct ExProtoError(trust_dns::proto::error::ProtoError);

#[verifier::external_type_specification]
#[verifier::external_body]
pub struct ExName(trust_dns::rr::domain::Name);

#[verifier::external_type_specification]
#[verifier::external_body]
pub struct ExDnsMessage(DnsMessage);

/// The record type number of an IPv4 address record (`A`).
pub const RECORD_TYPE_A: u16 = 1;

/// Whether `trust_dns::rr::domain::Name::from_ascii` accepts the text.
pub uninterp spec fn dns_name_parses(text: Seq<char>) -> bool;

/// Whether `trust_dns::op::Message::from_vec` decodes the bytes.
pub uninterp spec fn dns_reply_decodes(bytes: Seq<u8>) -> bool;

/// How many answer records the message decoded from the bytes holds.
pub uninterp spec fn dns_answer_count(bytes: Seq<u8>) -> nat;

/// The record type number of answer `i` of the message decoded from the bytes.
pub uninterp spec fn dns_answer_type(bytes: Seq<u8>, i: int) -> u16;

/// The textual IP address that `RData::to_ip_addr` gives for answer `i` of
/// the message decoded from the bytes, if it gives one.
pub uninterp spec fn dns_answer_ip(bytes: Seq<u8>, i: int) -> Option<Seq<char>>;

/// What can go wrong between text, messages and bytes.
#[derive(Debug)]
pub enum DnsCodecError {
    /// The domain name is not a valid DNS name.
    ParseDomainName(trust_dns::proto::error::ProtoError),
    /// The query could not be encoded.
    Encoding(trust_dns::proto::error::ProtoError),
    /// The reply could not be decoded.
    Decoding(trust_dns::proto::error::ProtoError),
    /// The first `A` answer of the reply carries no IP address.
    MissingAddress,
}

/// `rand::Rng::gen_range` on the thread-local generator: a value drawn from
/// `low ..= high`. Nothing is claimed of which value comes back beyond the
/// range; `gen_range` panics on an empty range, which `requires` excludes.
#[verifier::external_body]
fn random_u16_in(low: u16, high: u16) -> (r: u16)
    requires
        low <= high,
    ensures
        low <= r <= high,
{
    rand::thread_rng().gen_range(low..=high)
}

/// A random, non-zero message id, drawn uniformly from `1 ..= u16::MAX`.
pub fn message_id() -> (id: u16)
    ensures
        id != 0,
{
    random_u16_in(1, u16::MAX)
}

/// Whether a message asks or answers.
#[derive(Debug, PartialEq, Eq, Structural, Clone, Copy)]
pub enum MessageKind {
    Query,
    Response,
}

/// The operation a message requests.
#[derive(Debug, PartialEq, Eq, Structural, Clone, Copy)]
pub enum Operation {
    Query,
    Status,
    Notify,
    Update,
}

/// The four-bit number of an operation in the header.
pub open spec fn operation_number(op: Operation) -> int {
    match op {
        Operation::Query => 0,
        Operation::Status => 2,
        Operation::Notify => 4,
        Operation::Update => 5,
    }
}

/// The third header byte of a message with no answer flags set: the
/// response bit, the operation, and the recursion-desired bit.
pub open spec fn header_flags(kind: MessageKind, op: Operation, recursion_desired: bool) -> int {
    (if kind == MessageKind::Response { 0x80int } else { 0 }) + operation_number(op) * 8 + (
    if recursion_desired { 1int } else { 0 })
}

/// The wire form of a message with one question and nothing else: the
/// twelve header bytes (id, flags, one question, no records), the encoded
/// name, the record type and class `IN` (1).
pub open spec fn one_question_message(
    id: u16,
    kind: MessageKind,
    op: Operation,
    recursion_desired: bool,
    name_wire: Seq<u8>,
    record_type: u16,
) -> Seq<u8> {
    seq![
        (id / 256) as u8,
        (id % 256) as u8,
        header_flags(kind, op, recursion_desired) as u8,
        0u8,
        0u8,
        1u8,
        0u8,
        0u8,
        0u8,
        0u8,
        0u8,
        0u8,
    ] + name_wire + seq![(record_type / 256) as u8, (record_type % 256) as u8, 0u8, 1u8]
}

/// The bytes `Name::emit` writes for the name `Name::from_ascii` makes of
/// the text, as the first name of a message (so uncompressed): its labels,
/// each behind its length, then a zero byte.
pub uninterp spec fn dns_name_wire(text: Seq<char>) -> Seq<u8>;

/// A parsed domain name together with the text it was parsed from.
pub struct DomainName {
    name: trust_dns::rr::domain::Name,
    text: String,
}

impl View for DomainName {
    type V = Seq<char>;

    /// The text the name was parsed from.
    closed spec fn view(&self) -> Seq<char> {
        self.text@
    }
}

/// `trust_dns::rr::domain::Name::from_ascii`: whether it accepts the text
/// is claimed to depend on the text alone; the result remembers the text.
#[verifier::external_body]
fn name_from_ascii(domain_name: &str) -> (r: Result<DomainName, trust_dns::proto::error::ProtoError>)
    ensures
        r is Ok <==> dns_name_parses(domain_name@),
        r matches Ok(d) ==> d@ == domain_name@,
{
    match trust_dns::rr::domain::Name::from_ascii(domain_name) {
        Ok(name) => Ok(DomainName { name, text: domain_name.to_string() }),
        Err(e) => Err(e),
    }
}

/// Builds a `trust_dns::op::Message` with the given id, kind, operation and
/// recursion-desired flag and one question (`Query::query`, class `IN`)
/// for the name and record type, and encodes it with `Message::to_vec`.
/// As `Header::emit`, `emit_message_parts`, `Query::emit` and
/// `Name::emit_as_canonical` show, the bytes are the header, the
/// uncompressed name, the record type and the class; the only failure is a
/// name of more than 255 encoded bytes (labels are at most 63 bytes, which
/// `Name::from_ascii` ensures).
#[verifier::external_body]
fn encode_one_question(
    name: &DomainName,
    id: u16,
    kind: MessageKind,
    op: Operation,
    record_type: u16,
    recursion_desired: bool,
) -> (r: Result<Vec<u8>, trust_dns::proto::error::ProtoError>)
    ensures
        r is Ok <==> dns_name_wire(name@).len() <= 255,
        r matches Ok(bytes) ==> bytes@ == one_question_message(
            id,
            kind,
            op,
            recursion_desired,
            dns_name_wire(name@),
            record_type,
        ),
{
    let message_type = match kind {
        MessageKind::Query => MessageType::Query,
        MessageKind::Response => MessageType::Response,
    };
    let op_code = match op {
        Operation::Query => OpCode::Query,
        Operation::Status => OpCode::Status,
        Operation::Notify => OpCode::Notify,
        Operation::Update => OpCode::Update,
    };
    let mut request = DnsMessage::new();
    request.add_query(Query::query(name.name.clone(), trust_dns::rr::RecordType::from(record_type)));
    request.set_id(id).set_message_type(message_type).set_op_code(op_code)
        .set_recursion_desired(recursion_desired);
    request.to_vec()
}

impl DomainName {
    /// Parses a domain name; an invalid one is a `ParseDomainName` error.
    pub fn parse(domain_name: &str) -> (r: Result<DomainName, DnsCodecError>)
        ensures
            r is Ok <==> dns_name_parses(domain_name@),
            r matches Ok(d) ==> d@ == domain_name@,
            r matches Err(e) ==> e is ParseDomainName,
    {
        match name_from_ascii(domain_name) {
            Ok(name) => Ok(name),
            Err(e) => Err(DnsCodecError::ParseDomainName(e)),
        }
    }
}

/// The wire form of a standard query (kind query, operation query) asking,
/// with recursion desired, for the `A` records of `name`, under message id
/// `id`. A name longer than 255 encoded bytes is an `Encoding` error.
pub fn encode_a_query(name: &DomainName, id: u16) -> (r: Result<Vec<u8>, DnsCodecError>)
    ensures
        r is Ok <==> dns_name_wire(name@).len() <= 255,
        r matches Ok(bytes) ==> bytes@ == one_question_message(
            id,
            MessageKind::Query,
            Operation::Query,
            true,
            dns_name_wire(name@),
            RECORD_TYPE_A,
        ),
        r matches Err(e) ==> e is Encoding,
{
    match encode_one_question(name, id, MessageKind::Query, Operation::Query, RECORD_TYPE_A, true) {
        Ok(bytes) => Ok(bytes),
        Err(e) => Err(DnsCodecError::Encoding(e)),
    }
}

/// The wire form of a standard query asking, with recursion desired, for
/// the `A` records of `domain_name`, under message id `id`: parsing the
/// name, then encoding the query.
pub fn build_query(domain_name: &str, id: u16) -> (r: Result<Vec<u8>, DnsCodecError>)
    ensures
        r matches Err(DnsCodecError::ParseDomainName(_)) <==> !dns_name_parses(domain_name@),
        r matches Err(DnsCodecError::Encoding(_)) <==> dns_name_parses(domain_name@) && dns_name_wire(
            domain_name@,
        ).len() > 255,
        r is Ok <==> dns_name_parses(domain_name@) && dns_name_wire(domain_name@).len() <= 255,
        r matches Err(e) ==> e is ParseDomainName || e is Encoding,
        r matches Ok(bytes) ==> bytes@ == one_question_message(
            id,
            MessageKind::Query,
            Operation::Query,
            true,
            dns_name_wire(domain_name@),
            RECORD_TYPE_A,
        ),
{
    let name = DomainName::parse(domain_name)?;
    encode_a_query(&name, id)
}

/// A decoded DNS reply together with the bytes it was decoded from.
struct DecodedReply {
    msg: DnsMessage,
    bytes: Vec<u8>,
}

impl View for DecodedReply {
    type V = Seq<u8>;

    /// The bytes the reply was decoded from.
    closed spec fn view(&self) -> Seq<u8> {
        self.bytes@
    }
}

impl DecodedReply {
    /// `trust_dns::op::Message::from_vec`: whether it decodes the bytes is
    /// claimed to depend on the bytes alone; the result remembers them.
    #[verifier::external_body]
    fn from_bytes(bytes: &[u8]) -> (r: Result<DecodedReply, trust_dns::proto::error::ProtoError>)
        ensures
            r is Ok <==> dns_reply_decodes(bytes@),
            r matches Ok(d) ==> d@ == bytes@,
    {
        match DnsMessage::from_vec(bytes) {
            Ok(msg) => Ok(DecodedReply { msg, bytes: bytes.to_vec() }),
            Err(e) => Err(e),
        }
    }

    /// The number of records in `Message::answers`.
    #[verifier::external_body]
    fn answer_count(&self) -> (n: usize)
        ensures
            n == dns_answer_count(self@),
    {
        self.msg.answers().len()
    }

    /// The record type of answer `i`, as a number (`u16::from(RecordType)`).
    #[verifier::external_body]
    fn answer_type(&self, i: usize) -> (t: u16)
        requires
            i < dns_answer_count(self@),
        ensures
            t == dns_answer_type(self@, i as int),
    {
        u16::from(self.msg.answers()[i].record_type())
    }

    /// `RData::to_ip_addr` of answer `i`, in its textual form.
    #[verifier::external_body]
    fn answer_ip(&self, i: usize) -> (ip: Option<String>)
        requires
            i < dns_answer_count(self@),
        ensures
            ip is Some <==> dns_answer_ip(self@, i as int) is Some,
            ip matches Some(s) ==> s@ == dns_answer_ip(self@, i as int)->Some_0,
    {
        match self.msg.answers()[i].rdata().to_ip_addr() {
            Some(addr) => Some(addr.to_string()),
            None => None,
        }
    }
}

/// The position of the first `A` answer at or after `i`, if there is one.
pub open spec fn first_a_from(bytes: Seq<u8>, i: nat) -> Option<nat>
    decreases dns_answer_count(bytes) - i,
{
    if i >= dns_answer_count(bytes) {
        None
    } else if dns_answer_type(bytes, i as int) == RECORD_TYPE_A {
        Some(i)
    } else {
        first_a_from(bytes, i + 1)
    }
}

/// The answer `first_a_from` finds from `i` on is the earliest `A` answer
/// at or after `i`; when it finds none, no answer from `i` on is an `A`.
pub proof fn lemma_first_a_is_earliest(bytes: Seq<u8>, i: nat)
    ensures
        first_a_from(bytes, i) matches Some(k) ==> i <= k < dns_answer_count(bytes)
            && dns_answer_type(bytes, k as int) == RECORD_TYPE_A && forall|m: int|
            i <= m < k ==> dns_answer_type(bytes, m) != RECORD_TYPE_A,
        first_a_from(bytes, i) is None ==> forall|m: int|
            i <= m < dns_answer_count(bytes) ==> dns_answer_type(bytes, m) != RECORD_TYPE_A,
    decreases dns_answer_count(bytes) - i,
{
    if i < dns_answer_count(bytes) && dns_answer_type(bytes, i as int) != RECORD_TYPE_A {
        lemma_first_a_is_earliest(bytes, i + 1);
    }
}

/// The first `A` answer of a reply carries an address (or there is none).
pub open spec fn first_a_has_address(bytes: Seq<u8>) -> bool {
    first_a_from(bytes, 0) matches Some(i) ==> dns_answer_ip(bytes, i as int) is Some
}

/// The address of the first `A` answer, if any.
pub open spec fn first_a_address_spec(bytes: Seq<u8>) -> Option<Seq<char>> {
    match first_a_from(bytes, 0) {
        Some(i) => dns_answer_ip(bytes, i as int),
        None => None,
    }
}

/// The address the first `A` answer of the reply carries, or `None` when
/// the reply has no `A` answer. A first `A` answer without an address is
/// outside what this accepts.
fn first_a_address(reply: &DecodedReply) -> (ip: Option<String>)
    requires
        first_a_has_address(reply@),
    ensures
        ip is Some <==> first_a_address_spec(reply@) is Some,
        ip matches Some(s) ==> s@ == first_a_address_spec(reply@)->Some_0,
{
    let n = reply.answer_count();
    let mut i: usize = 0;
    while i < n
        invariant
            n == dns_answer_count(reply@),
            i <= n,
            first_a_from(reply@, 0) == first_a_from(reply@, i as nat),
            first_a_has_address(reply@),
        decreases n - i,
    {
        if reply.answer_type(i) == RECORD_TYPE_A {
            return reply.answer_ip(i);
        }
        i += 1;
    }
    None
}

/// Whether the first `A` answer of the reply carries an address (or there
/// is no `A` answer).
fn check_first_a_has_address(reply: &DecodedReply) -> (ok: bool)
    ensures
        ok == first_a_has_address(reply@),
{
    let n = reply.answer_count();
    let mut i: usize = 0;
    while i < n
        invariant
            n == dns_answer_count(reply@),
            i <= n,
            first_a_from(reply@, 0) == first_a_from(reply@, i as nat),
        decreases n - i,
    {
        if reply.answer_type(i) == RECORD_TYPE_A {
            return reply.answer_ip(i).is_some();
        }
        i += 1;
    }
    true
}

/// Reads a reply: decodes it and gives the address of its first `A`
/// answer, `None` when there is none. A reply that does not decode is a
/// `Decoding` error; a first `A` answer without an address is
/// `MissingAddress`.
pub fn read_reply(bytes: &[u8]) -> (r: Result<Option<String>, DnsCodecError>)
    ensures
        r matches Err(DnsCodecError::Decoding(_)) <==> !dns_reply_decodes(bytes@),
        r matches Err(DnsCodecError::MissingAddress) <==> dns_reply_decodes(bytes@)
            && !first_a_has_address(bytes@),
        r matches Err(e) ==> e is Decoding || e is MissingAddress,
        r matches Ok(ip) ==> (ip is Some <==> first_a_address_spec(bytes@) is Some) && (
        ip matches Some(s) ==> s@ == first_a_address_spec(bytes@)->Some_0),
{
    let reply = match DecodedReply::from_bytes(bytes) {
        Ok(reply) => reply,
        Err(e) => return Err(DnsCodecError::Decoding(e)),
    };
    if !check_first_a_has_address(&reply) {
        return Err(DnsCodecError::MissingAddress);
    }
    Ok(first_a_address(&reply))
}

} // verus!
