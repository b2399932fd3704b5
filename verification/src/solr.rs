//! The Solr backend: where it is reached, how long the runner waits for
//! it, and the test documents it is filled with.

use vstd::prelude::*;
use rand::Rng;
use crate::text::{
    all_digits, decimal, digits_value, lemma_decimal_injective, lemma_decimal_reads_back, push_decimal,
    string_views,
};

verus! {

/// The name of the Solr configuration set that is uploaded.
pub const CONFIG_NAME: &'static str = "test_data";

/// The collection that the test documents go into.
pub const COLLECTION_NAME: &'static str = "test_data";

/// How long the runner waits for Solr to answer, in seconds.
pub const SOLR_WAIT_SECONDS: i64 = 30;

/// The pause between two attempts to reach Solr, in seconds.
pub const SOLR_RETRY_SECONDS: u64 = 5;

/// The error with which waiting for Solr gives up.
pub const SOLR_TIMEOUT_MESSAGE: &'static str = "Could not reach solr within timeout";

/// The number of test documents.
pub const TEST_DOCUMENTS: usize = 100;

/// The length of each array of a test document.
pub const TEST_ARRAY_LEN: usize = 10;

/// The values of a test document's integer array lie below this bound.
pub const TEST_INT_BOUND: usize = 10;

/// The numbers of a test document's children lie below this bound.
pub const TEST_NUMBER_BOUND: usize = 1000;

/// The number of random bytes behind each random text.
pub const TEST_RANDOM_BYTES: usize = 16;

/// The URL of the Solr endpoint that Varnish forwards on `port` of this
/// host.
pub open spec fn local_solr_url_spec(port: u16) -> Seq<char> {
    "http://127.0.0.1:"@ + decimal(port as nat)
}

/// The URL of Solr behind Varnish on `port` of this host.
pub fn local_solr_url(port: u16) -> (url: String)
    ensures
        url@ == local_solr_url_spec(port),
        url@.take(17) == "http://127.0.0.1:"@,
        all_digits(url@.skip(17)),
        digits_value(url@.skip(17)) == port,
{
    let mut url = String::from_str("http://127.0.0.1:");
    push_decimal(&mut url, port as u64);
    proof {
        reveal_strlit("http://127.0.0.1:");
        lemma_decimal_reads_back(port as nat);
        assert(url@.take(17) =~= "http://127.0.0.1:"@);
        assert(url@.skip(17) =~= decimal(port as nat));
    }
    url
}

/// What waiting for Solr does next, before each attempt to reach it.
#[derive(Debug, Clone, Copy, PartialEq, Eq, Structural)]
pub enum WaitAction {
    /// The deadline has passed: stop with the timeout error.
    GiveUp,
    /// Ask Solr for its collections.
    Probe,
}

/// What waiting for Solr does after an attempt to reach it.
#[derive(Debug, Clone, Copy, PartialEq, Eq, Structural)]
pub enum ProbeOutcome {
    /// Solr answered: waiting is over.
    Ready,
    /// Solr did not answer: sleep this many seconds, then decide again.
    Retry(u64),
}

/// The deadline, in milliseconds, of a wait of `timeout_seconds` that
/// starts at `start_ms`, or `None` where the timeout in milliseconds or the
/// deadline does not fit in an `i64`.
pub fn solr_wait_deadline(start_ms: i64, timeout_seconds: i64) -> (deadline: Option<i64>)
    ensures
        match deadline {
            Some(d) => d == start_ms + timeout_seconds * 1000,
            None => {
                ||| timeout_seconds * 1000 > i64::MAX
                ||| timeout_seconds * 1000 < i64::MIN
                ||| start_ms + timeout_seconds * 1000 > i64::MAX
                ||| start_ms + timeout_seconds * 1000 < i64::MIN
            },
        },
{
    if timeout_seconds > i64::MAX / 1000 || timeout_seconds < i64::MIN / 1000 {
        return None;
    }
    let timeout_ms: i64 = timeout_seconds * 1000;
    start_ms.checked_add(timeout_ms)
}

/// Whether to try Solr once more at `now_ms` or to give up: a wait gives
/// up only once the deadline lies in the past.
pub fn before_probe(deadline_ms: i64, now_ms: i64) -> (action: WaitAction)
    ensures
        action == (if deadline_ms < now_ms { WaitAction::GiveUp } else { WaitAction::Probe }),
{
    if deadline_ms < now_ms {
        WaitAction::GiveUp
    } else {
        WaitAction::Probe
    }
}

/// What follows an attempt to reach Solr that `answered` or not.
pub fn after_probe(answered: bool) -> (outcome: ProbeOutcome)
    ensures
        outcome == (if answered { ProbeOutcome::Ready } else { ProbeOutcome::Retry(SOLR_RETRY_SECONDS) }),
{
    if answered {
        ProbeOutcome::Ready
    } else {
        ProbeOutcome::Retry(SOLR_RETRY_SECONDS)
    }
}

/// The lower-case hexadecimal digit for `d`, which is below sixteen.
pub open spec fn hex_digit(d: int) -> char {
    seq!['0', '1', '2', '3', '4', '5', '6', '7', '8', '9', 'a', 'b', 'c', 'd', 'e', 'f'][d]
}

/// Each byte as two lower-case hexadecimal digits, high nibble first.
pub open spec fn hex_lower(bytes: Seq<u8>) -> Seq<char>
    decreases bytes.len(),
{
    if bytes.len() == 0 {
        Seq::empty()
    } else {
        hex_lower(bytes.drop_last()) + seq![hex_digit(bytes.last() as int / 16), hex_digit(bytes.last() as int % 16)]
    }
}

/// `hex::encode`: each byte of `data` as two lower-case hexadecimal digits,
/// high nibble first.
#[verifier::external_body]
fn hex_encode(data: &[u8]) -> (s: String)
    ensures
        s@ == hex_lower(data@),
{
    hex::encode(data)
}

#[verifier::external_type_specification]
#[verifier::external_body]
pub struct ExThreadRng(rand::rngs::ThreadRng);

/// `rand::thread_rng`: the random generator of this thread.
#[verifier::external_body]
fn thread_rng() -> rand::rngs::ThreadRng {
    rand::thread_rng()
}

/// `Rng::gen_range` over `0..bound`: a value below `bound`.
#[verifier::external_body]
fn random_below(rng: &mut rand::rngs::ThreadRng, bound: usize) -> (r: usize)
    requires
        bound > 0,
    ensures
        r < bound,
{
    rng.gen_range(0..bound)
}

/// `Rng::gen` of a `[u8; 16]`: sixteen random bytes.
#[verifier::external_body]
fn random_bytes(rng: &mut rand::rngs::ThreadRng) -> (b: Vec<u8>)
    ensures
        b@.len() == TEST_RANDOM_BYTES,
{
    rng.gen::<[u8; 16]>().to_vec()
}

/// A child object of a test document.
#[derive(Debug, Clone, PartialEq, Eq)]
pub struct SubEntity {
    pub id: String,
    pub name: String,
    pub number: usize,
}

/// A test document.
#[derive(Debug, Clone, PartialEq, Eq)]
pub struct Entity {
    pub id: String,
    pub document_type: usize,
    pub int_array: Vec<usize>,
    pub string_array: Vec<String>,
    pub child_objects: Vec<SubEntity>,
}

/// The id of child `j` of document `i`: `i_j`.
pub open spec fn child_id(i: nat, j: nat) -> Seq<char> {
    decimal(i) + "_"@ + decimal(j)
}

/// The views of a sequence of byte vectors.
pub open spec fn byte_views(v: Seq<Vec<u8>>) -> Seq<Seq<u8>> {
    v.map_values(|b: Vec<u8>| b@)
}

/// `e` is test document `i` made of the given values: its integers, the
/// bytes behind its strings, and its children's numbers and the bytes
/// behind their names.
pub open spec fn is_test_entity(
    e: Entity,
    i: nat,
    ints: Seq<usize>,
    string_bytes: Seq<Seq<u8>>,
    numbers: Seq<usize>,
    name_bytes: Seq<Seq<u8>>,
) -> bool {
    &&& e.id@ == decimal(i)
    &&& e.document_type == 1
    &&& e.int_array@ == ints
    &&& string_views(e.string_array@) == string_bytes.map_values(|b: Seq<u8>| hex_lower(b))
    &&& e.child_objects@.len() == numbers.len()
    &&& forall|j: int|
        0 <= j < numbers.len() ==> {
            &&& (#[trigger] e.child_objects@[j]).id@ == child_id(i, j as nat)
            &&& e.child_objects@[j].name@ == hex_lower(name_bytes[j])
            &&& e.child_objects@[j].number == numbers[j]
        }
}

fn hex_strings(bytes: &Vec<Vec<u8>>) -> (strings: Vec<String>)
    ensures
        string_views(strings@) == byte_views(bytes@).map_values(|b: Seq<u8>| hex_lower(b)),
{
    let mut strings: Vec<String> = Vec::new();
    let n = bytes.len();
    let mut i: usize = 0;
    while i < n
        invariant
            n == bytes@.len(),
            i <= n,
            strings@.len() == i,
            forall|k: int| 0 <= k < i ==> (#[trigger] strings@[k])@ == hex_lower(bytes@[k]@),
        decreases n - i,
    {
        strings.push(hex_encode(bytes[i].as_slice()));
        i = i + 1;
    }
    assert(string_views(strings@) =~= byte_views(bytes@).map_values(|b: Seq<u8>| hex_lower(b)));
    strings
}

/// Test document `i` made of the given values: its integers, the bytes
/// behind its strings, and the numbers of its children and the bytes behind
/// their names.
pub fn test_entity(
    i: usize,
    ints: Vec<usize>,
    string_bytes: &Vec<Vec<u8>>,
    numbers: &Vec<usize>,
    name_bytes: &Vec<Vec<u8>>,
) -> (e: Entity)
    requires
        numbers@.len() == name_bytes@.len(),
    ensures
        is_test_entity(e, i as nat, ints@, byte_views(string_bytes@), numbers@, byte_views(name_bytes@)),
        all_digits(e.id@),
        digits_value(e.id@) == i,
        forall|j: int|
            0 <= j < e.child_objects@.len() ==> {
                let cid = (#[trigger] e.child_objects@[j]).id@;
                &&& cid.len() > e.id@.len()
                &&& cid.take(e.id@.len() as int) == e.id@
                &&& cid[e.id@.len() as int] == '_'
                &&& all_digits(cid.skip(e.id@.len() as int + 1))
                &&& digits_value(cid.skip(e.id@.len() as int + 1)) == j
            },
{
    let id = {
        let mut s = String::new();
        push_decimal(&mut s, i as u64);
        s
    };
    let string_array = hex_strings(string_bytes);
    let mut children: Vec<SubEntity> = Vec::new();
    let n = numbers.len();
    let mut j: usize = 0;
    while j < n
        invariant
            n == numbers@.len(),
            n == name_bytes@.len(),
            j <= n,
            children@.len() == j,
            forall|k: int|
                0 <= k < j ==> {
                    &&& (#[trigger] children@[k]).id@ == child_id(i as nat, k as nat)
                    &&& children@[k].name@ == hex_lower(name_bytes@[k]@)
                    &&& children@[k].number == numbers@[k]
                },
        decreases n - j,
    {
        let mut child_id_text = String::new();
        push_decimal(&mut child_id_text, i as u64);
        child_id_text.append("_");
        push_decimal(&mut child_id_text, j as u64);
        children.push(SubEntity {
            id: child_id_text,
            name: hex_encode(name_bytes[j].as_slice()),
            number: numbers[j],
        });
        j = j + 1;
    }
    let e = Entity { id, document_type: 1, int_array: ints, string_array, child_objects: children };
    proof {
        lemma_decimal_reads_back(i as nat);
        reveal_strlit("_");
        assert forall|j: int| 0 <= j < e.child_objects@.len() implies {
            let cid = (#[trigger] e.child_objects@[j]).id@;
            &&& cid.len() > e.id@.len()
            &&& cid.take(e.id@.len() as int) == e.id@
            &&& cid[e.id@.len() as int] == '_'
            &&& all_digits(cid.skip(e.id@.len() as int + 1))
            &&& digits_value(cid.skip(e.id@.len() as int + 1)) == j
        } by {
            let cid = e.child_objects@[j].id@;
            lemma_decimal_reads_back(j as nat);
            assert(cid == child_id(i as nat, j as nat));
            assert(cid.take(e.id@.len() as int) =~= e.id@);
            assert(cid.skip(e.id@.len() as int + 1) =~= decimal(j as nat));
        }
    }
    assert forall|k: int| 0 <= k < numbers@.len() implies e.child_objects@[k].name@ == hex_lower(
        byte_views(name_bytes@)[k],
    ) by {
        assert(byte_views(name_bytes@)[k] == name_bytes@[k]@);
    }
    e
}

/// `s` is the hexadecimal form of sixteen bytes.
pub open spec fn is_random_hex(s: Seq<char>) -> bool {
    exists|b: Seq<u8>| b.len() == TEST_RANDOM_BYTES && s == hex_lower(b)
}

/// `e` is test document `i`, whatever the random values behind it: its id is
/// `i`, its type 1, it has ten integers below ten, ten random texts, and
/// ten children `i_j` with a number below a thousand and a random name.
pub open spec fn is_random_test_entity(e: Entity, i: nat) -> bool {
    &&& e.id@ == decimal(i)
    &&& e.document_type == 1
    &&& e.int_array@.len() == TEST_ARRAY_LEN
    &&& forall|k: int| 0 <= k < e.int_array@.len() ==> #[trigger] e.int_array@[k] < TEST_INT_BOUND
    &&& e.string_array@.len() == TEST_ARRAY_LEN
    &&& forall|k: int| 0 <= k < e.string_array@.len() ==> is_random_hex(#[trigger] e.string_array@[k]@)
    &&& e.child_objects@.len() == TEST_ARRAY_LEN
    &&& forall|j: int|
        0 <= j < e.child_objects@.len() ==> {
            &&& (#[trigger] e.child_objects@[j]).id@ == child_id(i, j as nat)
            &&& e.child_objects@[j].number < TEST_NUMBER_BOUND
            &&& is_random_hex(e.child_objects@[j].name@)
        }
}

fn random_values(rng: &mut rand::rngs::ThreadRng, bound: usize) -> (v: Vec<usize>)
    requires
        bound > 0,
    ensures
        v@.len() == TEST_ARRAY_LEN,
        forall|k: int| 0 <= k < v@.len() ==> #[trigger] v@[k] < bound,
{
    let mut v: Vec<usize> = Vec::new();
    let mut k: usize = 0;
    while k < TEST_ARRAY_LEN
        invariant
            bound > 0,
            k <= TEST_ARRAY_LEN,
            v@.len() == k,
            forall|m: int| 0 <= m < k ==> #[trigger] v@[m] < bound,
        decreases TEST_ARRAY_LEN - k,
    {
        v.push(random_below(rng, bound));
        k = k + 1;
    }
    v
}

fn random_byte_strings(rng: &mut rand::rngs::ThreadRng) -> (v: Vec<Vec<u8>>)
    ensures
        v@.len() == TEST_ARRAY_LEN,
        forall|k: int| 0 <= k < v@.len() ==> (#[trigger] v@[k])@.len() == TEST_RANDOM_BYTES,
{
    let mut v: Vec<Vec<u8>> = Vec::new();
    let mut k: usize = 0;
    while k < TEST_ARRAY_LEN
        invariant
            k <= TEST_ARRAY_LEN,
            v@.len() == k,
            forall|m: int| 0 <= m < k ==> (#[trigger] v@[m])@.len() == TEST_RANDOM_BYTES,
        decreases TEST_ARRAY_LEN - k,
    {
        v.push(random_bytes(rng));
        k = k + 1;
    }
    v
}

/// The hundred test documents that are uploaded to Solr, drawn at random.
pub fn generate_test_data() -> (data: Vec<Entity>)
    ensures
        data@.len() == TEST_DOCUMENTS,
        forall|i: int| 0 <= i < data@.len() ==> is_random_test_entity(#[trigger] data@[i], i as nat),
{
    let mut rng = thread_rng();
    let mut data: Vec<Entity> = Vec::new();
    let mut i: usize = 0;
    while i < TEST_DOCUMENTS
        invariant
            i <= TEST_DOCUMENTS,
            data@.len() == i,
            forall|k: int| 0 <= k < i ==> is_random_test_entity(#[trigger] data@[k], k as nat),
        decreases TEST_DOCUMENTS - i,
    {
        let ints = random_values(&mut rng, TEST_INT_BOUND);
        let string_bytes = random_byte_strings(&mut rng);
        let numbers = random_values(&mut rng, TEST_NUMBER_BOUND);
        let name_bytes = random_byte_strings(&mut rng);
        let ghost ints_view = ints@;
        let e = test_entity(i, ints, &string_bytes, &numbers, &name_bytes);
        proof {
            let sb = byte_views(string_bytes@);
            let nb = byte_views(name_bytes@);
            assert(e.int_array@ == ints_view);
            assert(string_views(e.string_array@).len() == e.string_array@.len());
            assert(sb.map_values(|b: Seq<u8>| hex_lower(b)).len() == sb.len());
            assert(e.string_array@.len() == TEST_ARRAY_LEN);
            assert(e.child_objects@.len() == TEST_ARRAY_LEN);
            assert forall|k: int| 0 <= k < e.string_array@.len() implies is_random_hex(#[trigger] e.string_array@[k]@) by {
                assert(string_views(e.string_array@)[k] == e.string_array@[k]@);
                assert(sb[k] == string_bytes@[k]@);
                assert(sb[k].len() == TEST_RANDOM_BYTES);
                assert(e.string_array@[k]@ == hex_lower(sb[k]));
            }
            assert forall|j: int| 0 <= j < e.child_objects@.len() implies is_random_hex(#[trigger] e.child_objects@[j].name@) by {
                assert(nb[j] == name_bytes@[j]@);
                assert(nb[j].len() == TEST_RANDOM_BYTES);
                assert(e.child_objects@[j].name@ == hex_lower(nb[j]));
            }
            assert forall|j: int| 0 <= j < e.child_objects@.len() implies {
                &&& (#[trigger] e.child_objects@[j]).id@ == child_id(i as nat, j as nat)
                &&& e.child_objects@[j].number < TEST_NUMBER_BOUND
            } by {
                assert(e.child_objects@[j].number == numbers@[j]);
            }
            assert forall|k: int| 0 <= k < e.int_array@.len() implies #[trigger] e.int_array@[k] < TEST_INT_BOUND by {
                assert(e.int_array@[k] == ints_view[k]);
            }
            assert(is_random_test_entity(e, i as nat));
        }
        data.push(e);
        i = i + 1;
    }
    data
}

/// The generated test documents have pairwise different ids, and so do the
/// children of each of them.
pub proof fn lemma_test_ids_distinct(data: Seq<Entity>)
    requires
        forall|i: int| 0 <= i < data.len() ==> is_random_test_entity(#[trigger] data[i], i as nat),
    ensures
        forall|i: int, k: int| 0 <= i < k < data.len() ==> #[trigger] data[i].id@ != #[trigger] data[k].id@,
        forall|i: int, j: int, m: int|
            0 <= i < data.len() && 0 <= j < m < data[i].child_objects@.len()
                ==> #[trigger] data[i].child_objects@[j].id@ != #[trigger] data[i].child_objects@[m].id@,
{
    assert forall|i: int, k: int| 0 <= i < k < data.len() implies #[trigger] data[i].id@ != #[trigger] data[k].id@ by {
        assert(is_random_test_entity(data[i], i as nat));
        assert(is_random_test_entity(data[k], k as nat));
        if data[i].id@ == data[k].id@ {
            lemma_decimal_injective(i as nat, k as nat);
        }
    }
    assert forall|i: int, j: int, m: int|
        0 <= i < data.len() && 0 <= j < m < data[i].child_objects@.len()
            implies #[trigger] data[i].child_objects@[j].id@ != #[trigger] data[i].child_objects@[m].id@ by {
        assert(is_random_test_entity(data[i], i as nat));
        let a = data[i].child_objects@[j].id@;
        let b = data[i].child_objects@[m].id@;
        assert(a == child_id(i as nat, j as nat));
        assert(b == child_id(i as nat, m as nat));
        if a == b {
            let prefix = decimal(i as nat) + "_"@;
            assert(a =~= prefix + decimal(j as nat));
            assert(b =~= prefix + decimal(m as nat));
            assert(decimal(j as nat) =~= a.skip(prefix.len() as int));
            assert(decimal(m as nat) =~= b.skip(prefix.len() as int));
            lemma_decimal_injective(j as nat, m as nat);
        }
    }
}

} // verus!
