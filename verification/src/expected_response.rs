use vstd::prelude::*;

verus! {

/// The mathematical value of a consumed (or expected) Kafka record.
pub struct ResponseView {
    pub message: Seq<char>,
    pub key: Option<Seq<char>>,
    pub topic_name: Seq<char>,
    pub offset: Option<i64>,
}

/// A record that a test expects to consume, or one that was consumed.
#[derive(Debug, Clone)]
pub struct ExpectedResponse {
    pub message: String,
    pub key: Option<String>,
    pub topic_name: String,
    /// Responses will always have this set to Some.
    /// The test case can set this to None to ignore the value of the actual response.
    pub offset: Option<i64>,
}

pub open spec fn opt_string_view(s: Option<String>) -> Option<Seq<char>> {
    match s {
        Some(s) => Some(s@),
        None => None,
    }
}

impl View for ExpectedResponse {
    type V = ResponseView;

    open spec fn view(&self) -> ResponseView {
        ResponseView {
            message: self.message@,
            key: opt_string_view(self.key),
            topic_name: self.topic_name@,
            offset: self.offset,
        }
    }
}

/// Two offsets agree unless both are known and differ: a missing offset is a wildcard.
pub open spec fn offsets_agree(a: Option<i64>, b: Option<i64>) -> bool {
    match (a, b) {
        (Some(x), Some(y)) => x == y,
        _ => true,
    }
}

/// When two records count as the same record.
pub open spec fn responses_match(a: ResponseView, b: ResponseView) -> bool {
    &&& a.message == b.message
    &&& a.key == b.key
    &&& a.topic_name == b.topic_name
    &&& offsets_agree(a.offset, b.offset)
}

fn keys_equal(a: &Option<String>, b: &Option<String>) -> (r: bool)
    ensures
        r == (opt_string_view(*a) == opt_string_view(*b)),
{
    match a {
        Some(x) => match b {
            Some(y) => *x == *y,
            None => false,
        },
        None => b.is_none(),
    }
}

fn offsets_agree_exec(a: Option<i64>, b: Option<i64>) -> (r: bool)
    ensures
        r == offsets_agree(a, b),
{
    match (a, b) {
        (Some(x), Some(y)) => x == y,
        _ => true,
    }
}

impl PartialEq for ExpectedResponse {
    fn eq(&self, other: &Self) -> (r: bool) {
        self.message == other.message && keys_equal(&self.key, &other.key) && self.topic_name
            == other.topic_name && offsets_agree_exec(self.offset, other.offset)
    }
}

impl vstd::std_specs::cmp::PartialEqSpecImpl for ExpectedResponse {
    open spec fn obeys_eq_spec() -> bool {
        true
    }

    open spec fn eq_spec(&self, other: &ExpectedResponse) -> bool {
        responses_match(self@, other@)
    }
}


/// The first field in which a consumed record differs from the expected one.
#[derive(Debug, Clone, Copy, PartialEq, Eq, Structural)]
pub enum ConsumeMismatch {
    Topic,
    Message,
    Key,
    Offset,
}

/// What checking one consumed record against the expected one finds: fields are
/// compared in the order topic, message, key, and the offset only where one is expected.
pub open spec fn consume_verdict(expected: ResponseView, response: ResponseView) -> Result<
    (),
    ConsumeMismatch,
> {
    if expected.topic_name != response.topic_name {
        Err(ConsumeMismatch::Topic)
    } else if expected.message != response.message {
        Err(ConsumeMismatch::Message)
    } else if expected.key != response.key {
        Err(ConsumeMismatch::Key)
    } else if expected.offset is Some && expected.offset != response.offset {
        Err(ConsumeMismatch::Offset)
    } else {
        Ok(())
    }
}

impl ExpectedResponse {
    /// Checks a consumed record against this expected one.
    pub fn check_consumed(&self, response: &ExpectedResponse) -> (r: Result<(), ConsumeMismatch>)
        ensures
            r == consume_verdict(self@, response@),
    {
        if self.topic_name != response.topic_name {
            Err(ConsumeMismatch::Topic)
        } else if self.message != response.message {
            Err(ConsumeMismatch::Message)
        } else if !keys_equal(&self.key, &response.key) {
            Err(ConsumeMismatch::Key)
        } else {
            match self.offset {
                Some(expected_offset) => match response.offset {
                    Some(actual_offset) => if expected_offset == actual_offset {
                        Ok(())
                    } else {
                        Err(ConsumeMismatch::Offset)
                    },
                    None => Err(ConsumeMismatch::Offset),
                },
                None => Ok(()),
            }
        }
    }
}

/// Every record matches itself.
pub proof fn lemma_match_reflexive(a: ResponseView)
    ensures
        responses_match(a, a),
{
}

/// Matching does not depend on which side is the expected record.
pub proof fn lemma_match_symmetric(a: ResponseView, b: ResponseView)
    ensures
        responses_match(a, b) == responses_match(b, a),
{
}

/// Where both records carry an offset, matching is plain equality of the records.
pub proof fn lemma_match_is_equality_with_offsets(a: ResponseView, b: ResponseView)
    requires
        a.offset is Some,
        b.offset is Some,
    ensures
        responses_match(a, b) <==> a == b,
{
}

/// Checking a consumed record, which always carries its offset, passes exactly when
/// the record matches the expected one.
pub proof fn lemma_consume_check_agrees_with_match(expected: ResponseView, response: ResponseView)
    requires
        response.offset is Some,
    ensures
        (consume_verdict(expected, response) is Ok) <==> responses_match(expected, response),
{
}


/// Matching records agree on message, key and topic whatever their offsets: a missing
/// offset waives nothing but the offset comparison.
pub proof fn lemma_match_agrees_on_message_key_and_topic(a: ResponseView, b: ResponseView)
    ensures
        responses_match(a, b) ==> a.message == b.message,
        responses_match(a, b) ==> a.key == b.key,
        responses_match(a, b) ==> a.topic_name == b.topic_name,
{
}

/// A record without an offset matches exactly the records it equals once it takes
/// over their offset.
pub proof fn lemma_missing_offset_matches_any_offset(a: ResponseView, b: ResponseView)
    requires
        a.offset is None,
    ensures
        responses_match(a, b) <==> (ResponseView { offset: b.offset, ..a }) == b,
        responses_match(b, a) <==> (ResponseView { offset: b.offset, ..a }) == b,
{
}

/// Checking a consumed record passes exactly when topic, message and key are those
/// expected, and the offset too where one is expected.
pub proof fn lemma_consume_check_passes_exactly_on_expected_fields(
    expected: ResponseView,
    response: ResponseView,
)
    ensures
        (consume_verdict(expected, response) is Ok) <==> {
            &&& expected.topic_name == response.topic_name
            &&& expected.message == response.message
            &&& expected.key == response.key
            &&& expected.offset is Some ==> expected.offset == response.offset
        },
{
}

/// A failed check names a field that differs, and every field it compares before that
/// one agrees.
pub proof fn lemma_consume_check_names_a_differing_field(expected: ResponseView, response: ResponseView)
    ensures
        consume_verdict(expected, response) == Err::<(), ConsumeMismatch>(ConsumeMismatch::Topic)
            ==> expected.topic_name != response.topic_name,
        consume_verdict(expected, response) == Err::<(), ConsumeMismatch>(ConsumeMismatch::Message)
            ==> expected.topic_name == response.topic_name && expected.message != response.message,
        consume_verdict(expected, response) == Err::<(), ConsumeMismatch>(ConsumeMismatch::Key) ==> {
            &&& expected.topic_name == response.topic_name
            &&& expected.message == response.message
            &&& expected.key != response.key
        },
        consume_verdict(expected, response) == Err::<(), ConsumeMismatch>(ConsumeMismatch::Offset)
            ==> {
            &&& expected.topic_name == response.topic_name
            &&& expected.message == response.message
            &&& expected.key == response.key
            &&& expected.offset is Some
            &&& expected.offset != response.offset
        },
{
}

} // verus!
