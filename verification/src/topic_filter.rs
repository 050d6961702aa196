use vstd::prelude::*;
use vstd::string::StringSliceAdditionalSpecFns;
use vstd::utf8::encode_utf8;

use crate::collections::TopicString;
use crate::crate_config::MAX_TOPIC_LEN;
use crate::error::Error;

verus! {

/// The byte that delimits the fields of a topic: '/'.
pub const SLASH: u8 = 0x2f;

/// The wildcard that matches all subsequent fields: '#'.
pub const HASH: u8 = 0x23;

/// The wildcard that matches a single field: '+'.
pub const PLUS: u8 = 0x2b;

/// The length of the first field of a topic.
pub open spec fn field_len(s: Seq<u8>) -> nat
    decreases s.len(),
{
    if s.len() == 0 || s[0] == SLASH {
        0
    } else {
        1 + field_len(s.skip(1))
    }
}

/// The fields of a topic.
pub open spec fn fields(s: Seq<u8>) -> Seq<Seq<u8>>
    decreases s.len(),
{
    let n = field_len(s);
    if n >= s.len() {
        seq![s]
    } else {
        seq![s.take(n as int)] + fields(s.skip(n as int + 1))
    }
}

/// Whether the fields of a filter match those of a topic.
pub open spec fn fields_match(filter: Seq<Seq<u8>>, topic: Seq<Seq<u8>>) -> bool
    decreases filter.len(),
{
    if filter.len() == 0 || topic.len() == 0 {
        filter.len() == topic.len()
    } else if filter[0] == seq![HASH] {
        true
    } else {
        (filter[0] == seq![PLUS] || filter[0] == topic[0]) && fields_match(
            filter.skip(1),
            topic.skip(1),
        )
    }
}

/// Whether a filter contains a wildcard.
pub open spec fn has_wildcards(filter: Seq<u8>) -> bool {
    filter.contains(HASH) || filter.contains(PLUS)
}

/// Whether a filter matches a topic.
pub open spec fn filter_matches(filter: Seq<u8>, topic: Seq<u8>) -> bool {
    if has_wildcards(filter) {
        fields_match(fields(filter), fields(topic))
    } else {
        filter == topic
    }
}

proof fn lemma_field_len(s: Seq<u8>)
    ensures
        field_len(s) <= s.len(),
    decreases s.len(),
{
    if s.len() > 0 && s[0] != SLASH {
        lemma_field_len(s.skip(1));
    }
}

fn field_end(s: &[u8], start: usize) -> (end: usize)
    requires
        start <= s@.len(),
    ensures
        end == start + field_len(s@.skip(start as int)),
        start <= end <= s@.len(),
{
    let mut end: usize = start;
    proof {
        lemma_field_len(s@.skip(start as int));
    }
    while end < s.len() && s[end] != SLASH
        invariant
            start <= end <= s@.len(),
            start + field_len(s@.skip(start as int)) == end + field_len(s@.skip(end as int)),
        decreases s@.len() - end,
    {
        assert(s@.skip(end as int).skip(1) =~= s@.skip(end + 1));
        end = end + 1;
    }
    end
}

pub(crate) fn same(a: &[u8], b: &[u8]) -> (res: bool)
    ensures
        res == (a@ == b@),
{
    if a.len() != b.len() {
        return false;
    }
    let mut i: usize = 0;
    while i < a.len()
        invariant
            i <= a@.len() == b@.len(),
            forall|j: int| 0 <= j < i ==> a@[j] == b@[j],
        decreases a@.len() - i,
    {
        if a[i] != b[i] {
            return false;
        }
        i = i + 1;
    }
    assert(a@ =~= b@);
    true
}

fn match_fields(filter: &[u8], topic: &[u8]) -> (res: bool)
    ensures
        res == fields_match(fields(filter@), fields(topic@)),
{
    let mut i: usize = 0;
    let mut j: usize = 0;
    assert(filter@.skip(0) =~= filter@);
    assert(topic@.skip(0) =~= topic@);
    loop
        invariant
            i <= filter@.len(),
            j <= topic@.len(),
            fields_match(fields(filter@), fields(topic@)) == fields_match(
                fields(filter@.skip(i as int)),
                fields(topic@.skip(j as int)),
            ),
        decreases filter@.len() - i,
    {
        let ghost f = filter@.skip(i as int);
        let ghost t = topic@.skip(j as int);
        let i_end: usize = field_end(filter, i);
        let j_end: usize = field_end(topic, j);
        let field: &[u8] = &filter[i..i_end];
        let part: &[u8] = &topic[j..j_end];
        let ghost ff = fields(f);
        let ghost tf = fields(t);
        proof {
            lemma_field_len(f);
            lemma_field_len(t);
            assert(field@ =~= ff[0]);
            assert(part@ =~= tf[0]);
            if i_end < filter@.len() {
                assert(f.skip(field_len(f) as int + 1) =~= filter@.skip(i_end + 1));
                assert(ff.skip(1) =~= fields(filter@.skip(i_end + 1)));
            } else {
                assert(ff.skip(1).len() == 0);
            }
            if j_end < topic@.len() {
                assert(t.skip(field_len(t) as int + 1) =~= topic@.skip(j_end + 1));
                assert(tf.skip(1) =~= fields(topic@.skip(j_end + 1)));
            } else {
                assert(tf.skip(1).len() == 0);
            }
        }
        if field.len() == 1 && field[0] == HASH {
            assert(field@ =~= seq![HASH]);
            return true;
        }
        let any: bool = field.len() == 1 && field[0] == PLUS;
        assert(any == (field@ =~= seq![PLUS]));
        if !any && !same(field, part) {
            return false;
        }
        proof {
            reveal_with_fuel(fields_match, 2);
            lemma_fields_nonempty(filter@.skip(i_end + 1));
            lemma_fields_nonempty(topic@.skip(j_end + 1));
        }
        if i_end >= filter.len() {
            return j_end >= topic.len();
        }
        if j_end >= topic.len() {
            return false;
        }
        i = i_end + 1;
        j = j_end + 1;
    }
}

proof fn lemma_fields_nonempty(s: Seq<u8>)
    ensures
        fields(s).len() > 0,
{
}

fn contains(s: &[u8], byte: u8) -> (res: bool)
    ensures
        res == s@.contains(byte),
{
    let mut i: usize = 0;
    while i < s.len()
        invariant
            i <= s@.len(),
            forall|j: int| 0 <= j < i ==> s@[j] != byte,
        decreases s@.len() - i,
    {
        if s[i] == byte {
            return true;
        }
        i = i + 1;
    }
    false
}

/// A topic filter.
///
/// An MQTT topic filter is a multi-field string, delimited by forward
/// slashes, '/', in which fields can contain the wildcards:
///     '+' - Matches a single field
///     '#' - Matches all subsequent fields (must be last field in filter)
///
/// It can be used to match against topics.
#[derive(Debug, PartialEq, Eq, Hash)]
pub struct TopicFilter {
    filter: TopicString,
    has_wildcards: bool,
}

impl View for TopicFilter {
    type V = Seq<char>;

    closed spec fn view(&self) -> Seq<char> {
        self.filter@
    }
}

impl TopicFilter {
    #[verifier::type_invariant]
    spec fn inv(&self) -> bool {
        self.has_wildcards == has_wildcards(encode_utf8(self.filter@))
    }

    /// Creates a new topic filter from the string.
    /// This can fail if the filter is not correct, such as having a '#'
    /// wildcard in anyplace other than the last field, or if it is too long.
    pub fn new(filter: &str) -> (res: Result<Self, Error>)
        ensures
            ({
                let bytes = filter.spec_bytes();
                match res {
                    Ok(made) => {
                        &&& 0 < bytes.len() <= MAX_TOPIC_LEN
                        &&& !bytes.drop_last().contains(HASH)
                        &&& made@ == filter@
                    },
                    Err(Error::Overflow) => bytes.len() > MAX_TOPIC_LEN,
                    Err(Error::BadTopicFilter) => {
                        &&& bytes.len() <= MAX_TOPIC_LEN
                        &&& bytes.len() == 0 || bytes.drop_last().contains(HASH)
                    },
                    Err(_) => false,
                }
            }),
    {
        let copy: TopicString = match TopicString::from_str(filter) {
            Some(copy) => copy,
            None => {
                return Err(Error::Overflow);
            },
        };
        let bytes: &[u8] = filter.as_bytes();
        let n: usize = bytes.len();
        if n == 0 {
            return Err(Error::BadTopicFilter);
        }
        let front: &[u8] = &bytes[0..n - 1];
        assert(front@ =~= bytes@.drop_last());
        // If the topic contains any wildcards.
        if contains(front, HASH) {
            return Err(Error::BadTopicFilter);
        }
        let has_wildcards: bool = contains(bytes, HASH) || contains(bytes, PLUS);
        Ok(TopicFilter { filter: copy, has_wildcards })
    }

    /// Returns the filter as a string.
    pub fn filter(&self) -> (filter: &str)
        ensures
            filter@ == self@,
    {
        self.filter.as_str()
    }

    /// Determines if the topic matches the filter.
    pub fn is_match(&self, topic: &str) -> (res: bool)
        ensures
            res == filter_matches(encode_utf8(self@), topic.spec_bytes()),
    {
        proof {
            use_type_invariant(self);
        }
        let filter: &[u8] = self.filter.as_str().as_bytes();
        if self.has_wildcards {
            match_fields(filter, topic.as_bytes())
        } else {
            same(filter, topic.as_bytes())
        }
    }
}

/// A filter without wildcards matches the topic of the same name, and no other.
pub proof fn law_plain_filter_matches_itself(filter: Seq<u8>, topic: Seq<u8>)
    requires
        !has_wildcards(filter),
    ensures
        filter_matches(filter, topic) <==> filter == topic,
{
}

/// A filter that is a single '#' matches every topic.
pub proof fn law_hash_matches_everything(topic: Seq<u8>)
    ensures
        filter_matches(seq![HASH], topic),
{
    let filter = seq![HASH];
    assert(filter[0] == HASH);
    assert(filter.skip(1).len() == 0);
    reveal_with_fuel(field_len, 2);
    lemma_fields_nonempty(topic);
    assert(fields(filter)[0] =~= filter);
}

/// A '+' matches exactly one field: without a '#', a filter matches only topics
/// with as many fields as it has itself.
pub proof fn law_without_hash_the_number_of_fields_agrees(
    filter: Seq<Seq<u8>>,
    topic: Seq<Seq<u8>>,
)
    requires
        fields_match(filter, topic),
        !filter.contains(seq![HASH]),
    ensures
        filter.len() == topic.len(),
        forall|i: int|
            0 <= i < filter.len() ==> #[trigger] filter[i] == seq![PLUS] || filter[i] == topic[i],
    decreases filter.len(),
{
    if filter.len() > 0 && topic.len() > 0 {
        assert(filter[0] != seq![HASH]);
        assert forall|i: int| 0 <= i < filter.skip(1).len() implies filter.skip(1)[i] != seq![
            HASH,
        ] by {
            assert(filter.skip(1)[i] == filter[i + 1]);
        }
        law_without_hash_the_number_of_fields_agrees(filter.skip(1), topic.skip(1));
        assert forall|i: int| 0 <= i < filter.len() implies #[trigger] filter[i] == seq![PLUS]
            || filter[i] == topic[i] by {
            if i > 0 {
                assert(filter.skip(1)[i - 1] == filter[i]);
                assert(topic.skip(1)[i - 1] == topic[i]);
            }
        }
    }
}

/// A filter that ends in a field '#' matches every topic that goes on, in at
/// least one field, after fields that match the ones in front of it.
pub proof fn law_hash_matches_all_subsequent_fields(
    filter: Seq<Seq<u8>>,
    topic: Seq<Seq<u8>>,
    more: Seq<Seq<u8>>,
)
    requires
        fields_match(filter, topic),
        !filter.contains(seq![HASH]),
        more.len() > 0,
    ensures
        fields_match(filter.push(seq![HASH]), topic + more),
    decreases filter.len(),
{
    let longer = filter.push(seq![HASH]);
    if filter.len() == 0 {
        assert(longer[0] == seq![HASH]);
        assert((topic + more).len() > 0);
    } else {
        assert(filter[0] != seq![HASH]);
        assert forall|i: int| 0 <= i < filter.skip(1).len() implies filter.skip(1)[i] != seq![
            HASH,
        ] by {
            assert(filter.skip(1)[i] == filter[i + 1]);
        }
        law_hash_matches_all_subsequent_fields(filter.skip(1), topic.skip(1), more);
        assert(longer.skip(1) =~= filter.skip(1).push(seq![HASH]));
        assert((topic + more).skip(1) =~= topic.skip(1) + more);
        assert(longer[0] == filter[0]);
        assert((topic + more)[0] == topic[0]);
    }
}

/// Fields with a slash between each two of them.
pub open spec fn joined(fields: Seq<Seq<u8>>) -> Seq<u8>
    decreases fields.len(),
{
    if fields.len() == 0 {
        seq![]
    } else if fields.len() == 1 {
        fields[0]
    } else {
        fields[0] + seq![SLASH] + joined(fields.skip(1))
    }
}

proof fn lemma_first_field(s: Seq<u8>)
    ensures
        !s.take(field_len(s) as int).contains(SLASH),
        field_len(s) < s.len() ==> s[field_len(s) as int] == SLASH,
    decreases s.len(),
{
    lemma_field_len(s);
    if s.len() > 0 && s[0] != SLASH {
        let rest = s.skip(1);
        lemma_first_field(rest);
        lemma_field_len(rest);
        let field = s.take(field_len(s) as int);
        assert forall|i: int| 0 <= i < field.len() implies field[i] != SLASH by {
            if i > 0 {
                assert(field[i] == rest.take(field_len(rest) as int)[i - 1]);
            }
        }
        if field_len(s) < s.len() {
            assert(s[field_len(s) as int] == rest[field_len(rest) as int]);
        }
    }
}

/// The fields of a topic are what stands between its slashes: none of them
/// holds one, and with slashes between them they are the topic again.
pub proof fn law_fields_lie_between_slashes(s: Seq<u8>)
    ensures
        fields(s).len() > 0,
        joined(fields(s)) == s,
        forall|i: int| 0 <= i < fields(s).len() ==> !(#[trigger] fields(s)[i]).contains(SLASH),
    decreases s.len(),
{
    let n = field_len(s) as int;
    let all = fields(s);
    lemma_field_len(s);
    lemma_first_field(s);
    if n >= s.len() {
        assert(s.take(n) =~= s);
        assert(all[0] == s);
    } else {
        let rest = s.skip(n + 1);
        law_fields_lie_between_slashes(rest);
        assert(all.skip(1) =~= fields(rest));
        assert(all[0] == s.take(n));
        assert(joined(all) =~= s);
        assert forall|i: int| 0 <= i < all.len() implies !(#[trigger] all[i]).contains(SLASH) by {
            if i > 0 {
                assert(all[i] == fields(rest)[i - 1]);
            }
        }
    }
}

/// Whatever a topic is made of, its fields are those that it was joined of.
pub proof fn law_joined_fields_are_found_again(parts: Seq<Seq<u8>>)
    requires
        parts.len() > 0,
        forall|i: int| 0 <= i < parts.len() ==> !(#[trigger] parts[i]).contains(SLASH),
    ensures
        fields(joined(parts)) == parts,
    decreases parts.len(),
{
    let s = joined(parts);
    let first = parts[0];
    let n = field_len(s) as int;
    lemma_field_len(s);
    lemma_first_field(s);
    assert(!first.contains(SLASH));
    if n < first.len() {
        assert(s[n] == first[n]);
        assert(first.contains(SLASH));
    }
    if parts.len() == 1 {
        assert(seq![s] =~= parts);
    } else {
        let rest = parts.skip(1);
        assert forall|i: int| 0 <= i < rest.len() implies !(#[trigger] rest[i]).contains(SLASH) by {
            assert(rest[i] == parts[i + 1]);
        }
        law_joined_fields_are_found_again(rest);
        if n > first.len() {
            assert(s.take(n)[first.len() as int] == SLASH);
        }
        assert(s.take(n) =~= first);
        assert(s.skip(n + 1) =~= joined(rest));
        assert(fields(s) =~= parts);
    }
}

proof fn lemma_fields_agree(filter: Seq<Seq<u8>>, topic: Seq<Seq<u8>>, hash: int)
    requires
        0 <= hash <= filter.len(),
        forall|i: int| 0 <= i < hash ==> #[trigger] filter[i] != seq![HASH],
        hash < filter.len() ==> filter[hash] == seq![HASH],
    ensures
        fields_match(filter, topic) <==> {
            &&& if hash == filter.len() {
                topic.len() == hash
            } else {
                topic.len() > hash
            }
            &&& forall|i: int|
                0 <= i < hash ==> #[trigger] filter[i] == seq![PLUS] || filter[i] == topic[i]
        },
    decreases filter.len(),
{
    if filter.len() > 0 && topic.len() > 0 && hash > 0 {
        let rest = filter.skip(1);
        let after = topic.skip(1);
        assert(filter[0] != seq![HASH]);
        assert forall|i: int| 0 <= i < hash - 1 implies #[trigger] rest[i] != seq![HASH] by {
            assert(rest[i] == filter[i + 1]);
        }
        lemma_fields_agree(rest, after, hash - 1);
        if forall|i: int|
            0 <= i < hash ==> #[trigger] filter[i] == seq![PLUS] || filter[i] == topic[i] {
            assert forall|i: int| 0 <= i < hash - 1 && topic.len() >= hash implies #[trigger] rest[i]
                == seq![PLUS] || rest[i] == after[i] by {
                assert(rest[i] == filter[i + 1]);
                assert(after[i] == topic[i + 1]);
            }
        }
        if fields_match(filter, topic) {
            assert forall|i: int| 0 <= i < hash implies #[trigger] filter[i] == seq![PLUS]
                || filter[i] == topic[i] by {
                if i > 0 {
                    assert(filter[i] == rest[i - 1]);
                    assert(topic[i] == after[i - 1]);
                }
            }
        }
    }
}

proof fn lemma_field_of_wildcard(filter: Seq<u8>, i: int)
    requires
        0 <= i < fields(filter).len(),
        fields(filter)[i] == seq![HASH] || fields(filter)[i] == seq![PLUS],
    ensures
        has_wildcards(filter),
    decreases filter.len(),
{
    let n = field_len(filter) as int;
    lemma_field_len(filter);
    if i == 0 {
        let field = fields(filter)[0];
        assert(field.len() == 1);
        assert(field[0] == filter[0]) by {
            if n < filter.len() {
                assert(field == filter.take(n));
            } else {
                assert(field == filter);
            }
        }
        assert(filter.contains(filter[0]));
    } else {
        let rest = filter.skip(n + 1);
        assert(fields(filter)[i] == fields(rest)[i - 1]);
        lemma_field_of_wildcard(rest, i - 1);
        if rest.contains(HASH) {
            let k = choose|k: int| 0 <= k < rest.len() && rest[k] == HASH;
            assert(filter[n + 1 + k] == HASH);
        } else {
            let k = choose|k: int| 0 <= k < rest.len() && rest[k] == PLUS;
            assert(filter[n + 1 + k] == PLUS);
        }
    }
}

/// A filter matches a topic if and only if their fields agree one by one: a
/// field '+' agrees with any one field, a field '#' with all that are left, of
/// which there is at least one, and any other field with itself alone. `hash`
/// is where the first field '#' of the filter stands, or behind its end.
pub proof fn law_matching_goes_field_by_field(filter: Seq<u8>, topic: Seq<u8>, hash: int)
    requires
        0 <= hash <= fields(filter).len(),
        forall|i: int| 0 <= i < hash ==> #[trigger] fields(filter)[i] != seq![HASH],
        hash < fields(filter).len() ==> fields(filter)[hash] == seq![HASH],
    ensures
        filter_matches(filter, topic) <==> {
            &&& if hash == fields(filter).len() {
                fields(topic).len() == hash
            } else {
                fields(topic).len() > hash
            }
            &&& forall|i: int|
                0 <= i < hash ==> #[trigger] fields(filter)[i] == seq![PLUS] || fields(filter)[i]
                    == fields(topic)[i]
        },
{
    lemma_fields_agree(fields(filter), fields(topic), hash);
    if !has_wildcards(filter) {
        if hash < fields(filter).len() {
            lemma_field_of_wildcard(filter, hash);
        }
        law_fields_lie_between_slashes(filter);
        law_fields_lie_between_slashes(topic);
        assert forall|i: int| 0 <= i < hash implies #[trigger] fields(filter)[i] != seq![PLUS] by {
            if fields(filter)[i] == seq![PLUS] {
                lemma_field_of_wildcard(filter, i);
            }
        }
        if fields_match(fields(filter), fields(topic)) {
            assert(fields(filter) =~= fields(topic));
        }
    }
}

/// `is_match` tells the topics whose fields are those of the filter, up to the
/// wildcards, from all others: whatever the fields are, if there are as many of
/// them and each field of the filter is '+' or that of the topic, it matches.
/// If a field of the filter is neither '+' nor '#' nor that of the topic, and no
/// field '#' stands in front of it, it does not.
pub proof fn law_is_match(
    filter: &TopicFilter,
    topic: &str,
    res: bool,
    parts: Seq<Seq<u8>>,
    names: Seq<Seq<u8>>,
)
    requires
        call_ensures(TopicFilter::is_match, (filter, topic), res),
        parts.len() > 0,
        names.len() > 0,
        forall|i: int| 0 <= i < parts.len() ==> !(#[trigger] parts[i]).contains(SLASH),
        forall|i: int| 0 <= i < names.len() ==> !(#[trigger] names[i]).contains(SLASH),
        encode_utf8(filter@) == joined(parts),
        topic.spec_bytes() == joined(names),
    ensures
        parts.len() == names.len() && (forall|i: int|
            0 <= i < parts.len() ==> #[trigger] parts[i] == seq![PLUS] || parts[i] == names[i])
            ==> res,
        parts.last() == seq![HASH] && parts.len() <= names.len() && (forall|i: int|
            0 <= i < parts.len() - 1 ==> #[trigger] parts[i] == seq![PLUS] || parts[i] == names[i])
            ==> res,
        res && !parts.contains(seq![HASH]) ==> parts.len() == names.len(),
        forall|i: int|
            #![trigger parts[i]]
            res && 0 <= i < parts.len() && parts[i] != seq![PLUS] && (forall|j: int|
                0 <= j <= i ==> #[trigger] parts[j] != seq![HASH]) ==> i < names.len() && parts[i]
                == names[i],
{
    let bytes = encode_utf8(filter@);
    law_joined_fields_are_found_again(parts);
    law_joined_fields_are_found_again(names);
    let hash = first_hash(parts, 0);
    lemma_first_hash(parts, 0);
    law_matching_goes_field_by_field(bytes, topic.spec_bytes(), hash);
    if hash < parts.len() {
        assert(parts.contains(parts[hash]));
    }
    assert forall|i: int|
        #![trigger parts[i]]
        res && 0 <= i < parts.len() && parts[i] != seq![PLUS] && (forall|j: int|
            0 <= j <= i ==> #[trigger] parts[j] != seq![HASH]) implies i < names.len() && parts[i]
        == names[i] by {
        if hash <= i {
            assert(parts[hash] != seq![HASH]);
        }
    }
    if parts.len() == names.len() && (forall|i: int|
        0 <= i < parts.len() ==> #[trigger] parts[i] == seq![PLUS] || parts[i] == names[i]) {
        assert(res);
    }
}

spec fn first_hash(parts: Seq<Seq<u8>>, from: int) -> int
    decreases parts.len() - from,
{
    if from >= parts.len() || parts[from] == seq![HASH] {
        from
    } else {
        first_hash(parts, from + 1)
    }
}

proof fn lemma_first_hash(parts: Seq<Seq<u8>>, from: int)
    requires
        0 <= from <= parts.len(),
    ensures
        from <= first_hash(parts, from) <= parts.len(),
        forall|i: int| from <= i < first_hash(parts, from) ==> #[trigger] parts[i] != seq![HASH],
        first_hash(parts, from) < parts.len() ==> parts[first_hash(parts, from)] == seq![HASH],
    decreases parts.len() - from,
{
    if from < parts.len() && parts[from] != seq![HASH] {
        lemma_first_hash(parts, from + 1);
    }
}

/// `new` accepts exactly the filters that are not empty, not too long and hold
/// a '#' at most as their last byte, and keeps the filter as it is. One that is
/// too long has an error of its own.
pub proof fn law_new_filter(filter: &str, res: Result<TopicFilter, Error>, kept: &str)
    requires
        call_ensures(TopicFilter::new, (filter,), res),
        res is Ok ==> call_ensures(TopicFilter::filter, (&res->Ok_0,), kept),
    ensures
        res is Ok <==> {
            &&& 0 < filter.spec_bytes().len() <= MAX_TOPIC_LEN
            &&& forall|i: int|
                0 <= i < filter.spec_bytes().len() - 1 ==> #[trigger] filter.spec_bytes()[i] != HASH
        },
        res matches Ok(made) ==> made@ == filter@ && kept@ == filter@,
        res matches Err(e) ==> e == if filter.spec_bytes().len() > MAX_TOPIC_LEN {
            Error::Overflow
        } else {
            Error::BadTopicFilter
        },
{
    let bytes = filter.spec_bytes();
    if 0 < bytes.len() {
        let front = bytes.drop_last();
        if front.contains(HASH) {
            let k = choose|k: int| 0 <= k < front.len() && front[k] == HASH;
            assert(bytes[k] == HASH);
        } else {
            assert forall|i: int| 0 <= i < bytes.len() - 1 implies #[trigger] bytes[i] != HASH by {
                assert(front[i] == bytes[i]);
            }
        }
    }
}

} // verus!
