//! The rules of the remote transport: which topics may travel, how large a payload may be,
//! and how durable consumers are named.
use vstd::prelude::*;
use vstd::string::StringExecFns;
use crate::error::Error;

verus! {

/// The largest payload a remote transport publishes: one mebibyte.
pub const MAX_PAYLOAD_SIZE: usize = 1048576;

/// The number of non-empty segments of `s` between dots.
pub open spec fn segment_count(s: Seq<char>) -> nat
    decreases s.len(),
{
    if s.len() == 0 {
        0
    } else if s.last() != '.' && (s.len() == 1 || s[s.len() - 2] == '.') {
        segment_count(s.drop_last()) + 1
    } else {
        segment_count(s.drop_last())
    }
}

/// The number of non-empty segments of `topic` between dots.
pub fn topic_segments(topic: &str) -> (n: usize)
    ensures
        n == segment_count(topic@),
{
    let len = topic.unicode_len();
    let mut n: usize = 0;
    let mut i: usize = 0;
    let mut prev_dot = true;
    while i < len
        invariant
            len == topic@.len(),
            i <= len,
            n == segment_count(topic@.take(i as int)),
            n <= i,
            prev_dot == (i == 0 || topic@[i - 1] == '.'),
        decreases len - i,
    {
        let c = topic.get_char(i);
        let ghost t = topic@.take(i + 1);
        assert(t.drop_last() == topic@.take(i as int));
        assert(t.last() == c);
        if i > 0 {
            assert(t[t.len() - 2] == topic@[i - 1]);
        }
        if c != '.' && prev_dot {
            n = n + 1;
        }
        prev_dot = c == '.';
        i += 1;
    }
    assert(topic@.take(len as int) == topic@);
    n
}

/// A remote topic must have at least three non-empty segments, as `domain.service.event`.
pub fn is_valid_remote_topic(topic: &str) -> (r: bool)
    ensures
        r == (segment_count(topic@) >= 3),
{
    topic_segments(topic) >= 3
}

/// Refuse a remote topic with fewer than three non-empty segments.
pub fn check_remote_topic(topic: &str) -> (r: Result<(), Error>)
    ensures
        segment_count(topic@) >= 3 ==> r is Ok,
        segment_count(topic@) < 3 ==> (r matches Err(Error::ConfigError(m))
            && m@ == "remote topic must contain at least 3 dot-separated segments (e.g., domain.service.event)"@),
{
    if is_valid_remote_topic(topic) {
        Ok(())
    } else {
        Err(Error::ConfigError(String::from_str("remote topic must contain at least 3 dot-separated segments (e.g., domain.service.event)")))
    }
}

/// Refuse a payload of `size` bytes above the transport's limit.
pub fn check_payload_size(size: usize) -> (r: Result<(), Error>)
    ensures
        size <= MAX_PAYLOAD_SIZE ==> r is Ok,
        size > MAX_PAYLOAD_SIZE ==> r == Err::<(), Error>(Error::PayloadTooLarge { size, max: MAX_PAYLOAD_SIZE }),
{
    if size > MAX_PAYLOAD_SIZE {
        Err(Error::PayloadTooLarge { size, max: MAX_PAYLOAD_SIZE })
    } else {
        Ok(())
    }
}

/// `c`, with the characters that a consumer name cannot hold (`.`, `*` and `>`) made `_`.
pub open spec fn consumer_char(c: char) -> char {
    if c == '.' || c == '*' || c == '>' {
        '_'
    } else {
        c
    }
}

/// The name of the durable consumer of `queue_group` on `topic`: the group, `_`, and the
/// topic with every `.`, `*` and `>` made `_`.
pub open spec fn consumer_name_spec(queue_group: Seq<char>, topic: Seq<char>) -> Seq<char> {
    queue_group + "_"@ + topic.map_values(|c: char| consumer_char(c))
}

/// The name of the durable consumer of `queue_group` on `topic`.
pub fn consumer_name(queue_group: &str, topic: &str) -> (s: String)
    ensures
        s@ == consumer_name_spec(queue_group@, topic@),
{
    let mut s = String::from_str(queue_group).concat("_");
    let len = topic.unicode_len();
    let mut i: usize = 0;
    proof {
        reveal_strlit("_");
    }
    while i < len
        invariant
            len == topic@.len(),
            i <= len,
            s@ == queue_group@ + "_"@ + topic@.take(i as int).map_values(|c: char| consumer_char(c)),
        decreases len - i,
    {
        let c = topic.get_char(i);
        let ghost before = s@;
        proof {
            reveal_strlit("_");
        }
        if c == '.' || c == '*' || c == '>' {
            s.append("_");
            assert(s@ == before.push('_'));
        } else {
            let one = topic.substring_char(i, i + 1);
            assert(one@ =~= seq![c]);
            s.append(one);
            assert(s@ == before.push(c));
        }
        assert(topic@.take(i + 1).map_values(|c: char| consumer_char(c)) =~= topic@.take(i as int).map_values(
            |c: char| consumer_char(c),
        ).push(consumer_char(c)));
        i += 1;
    }
    assert(topic@.take(len as int) == topic@);
    s
}

} // verus!
