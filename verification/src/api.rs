//! What the benchmarked web services do with a request: the Solr query
//! they forward, the check of the `document_type` parameter, and the
//! anonymization of the documents they return.

use vstd::prelude::*;
use crate::text::{
    all_digits, digits_value, lemma_signed_decimal_reads_back, push_signed_decimal, signed_decimal,
};

verus! {

/// The backend host that a service uses when none is configured.
pub const DEFAULT_BENCHMARK_HOST: &'static str = "http://localhost:8983";

/// The Solr collection that holds the test documents.
pub const TEST_COLLECTION: &'static str = "test_data";

/// Child numbers below this bound are anonymized.
pub const ANONYMIZE_BELOW: i32 = 100;

/// The document type whose documents are anonymized.
pub const ANONYMIZED_DOCUMENT_TYPE: i32 = 1;

/// The message of the answer to a request without a usable `document_type`.
pub const MISSING_DOCUMENT_TYPE: &'static str = "Required parameter not found or incorrect: document_type";

/// A service's configuration.
pub struct Config {
    /// The base URL of the backend, such as `http://varnish`.
    pub benchmark_host: String,
}

impl Config {
    /// The configuration for the value of the `BENCHMARK_HOST` setting,
    /// falling back to the default host where it is not set.
    pub fn with_benchmark_host(setting: Option<String>) -> (config: Config)
        ensures
            config.benchmark_host@ == match setting {
                Some(h) => h@,
                None => DEFAULT_BENCHMARK_HOST@,
            },
    {
        match setting {
            Some(h) => Config { benchmark_host: h },
            None => Config { benchmark_host: String::from_str(DEFAULT_BENCHMARK_HOST) },
        }
    }
}

/// The answer to a malformed request, with its message.
#[derive(Debug, Clone, PartialEq, Eq)]
pub struct BadRequest {
    pub message: String,
}

/// The value of the `document_type` query parameter, or the bad request
/// that answers its absence.
pub fn require_document_type(document_type: Option<i32>) -> (res: Result<i32, BadRequest>)
    ensures
        match document_type {
            Some(t) => res == Ok::<i32, BadRequest>(t),
            None => res matches Err(e) && e.message@ == MISSING_DOCUMENT_TYPE@,
        },
{
    match document_type {
        Some(t) => Ok(t),
        None => Err(BadRequest { message: String::from_str(MISSING_DOCUMENT_TYPE) }),
    }
}

/// The Solr select query for the documents of `document_type` in
/// `collection` on `host`, with their children.
pub open spec fn select_url_spec(host: Seq<char>, collection: Seq<char>, document_type: int) -> Seq<char> {
    host + "/solr/"@ + collection
        + "/select?fl=id,document_type,int_array,string_array,child_objects,name,number,[child]&q=*:*&rows=100&fq=document_type:"@
        + signed_decimal(document_type)
}

/// The select query asks `host` for the collection's documents with their
/// fields and children, a hundred rows, filtered on a document type that is
/// written last, as a `-` for a negative type followed by digits that read
/// back as its magnitude.
pub proof fn lemma_select_url_filters_document_type(host: Seq<char>, collection: Seq<char>, document_type: int)
    ensures
        ({
            let url = select_url_spec(host, collection, document_type);
            let prefix = host + "/solr/"@ + collection
                + "/select?fl=id,document_type,int_array,string_array,child_objects,name,number,[child]&q=*:*&rows=100&fq=document_type:"@;
            let t = url.skip(prefix.len() as int);
            &&& url.take(prefix.len() as int) == prefix
            &&& t.len() >= 1
            &&& (t[0] == '-') == (document_type < 0)
            &&& document_type < 0 ==> all_digits(t.drop_first()) && digits_value(t.drop_first()) == -document_type
            &&& document_type >= 0 ==> all_digits(t) && digits_value(t) == document_type
        }),
{
    let prefix = host + "/solr/"@ + collection
        + "/select?fl=id,document_type,int_array,string_array,child_objects,name,number,[child]&q=*:*&rows=100&fq=document_type:"@;
    let url = select_url_spec(host, collection, document_type);
    assert(url =~= prefix + signed_decimal(document_type));
    assert(url.take(prefix.len() as int) =~= prefix);
    assert(url.skip(prefix.len() as int) =~= signed_decimal(document_type));
    lemma_signed_decimal_reads_back(document_type);
}

/// The URL that fetches the documents of `document_type` from
/// `collection` on `host`.
pub fn select_url(host: &str, collection: &str, document_type: i32) -> (url: String)
    ensures
        url@ == select_url_spec(host@, collection@, document_type as int),
{
    let mut url = String::from_str(host);
    url.append("/solr/");
    url.append(collection);
    url.append(
        "/select?fl=id,document_type,int_array,string_array,child_objects,name,number,[child]&q=*:*&rows=100&fq=document_type:",
    );
    push_signed_decimal(&mut url, document_type);
    url
}

/// A child object of a document.
#[derive(Debug, Clone, PartialEq, Eq)]
pub struct SubEntity {
    pub id: String,
    pub name: Option<String>,
    pub number: Option<i32>,
}

/// A document as Solr returns it and the services answer it.
#[derive(Debug, Clone, PartialEq, Eq)]
pub struct Entity {
    pub id: String,
    pub document_type: Option<i32>,
    pub string_array: Option<Vec<String>>,
    pub int_array: Option<Vec<i32>>,
    pub child_objects: Option<Vec<SubEntity>>,
}

/// A child number after anonymization: numbers below the bound become 0.
pub open spec fn anonymized_number(n: i32) -> i32 {
    if n < ANONYMIZE_BELOW {
        0
    } else {
        n
    }
}

/// The children of a document, empty where it has none.
pub open spec fn children(e: Entity) -> Seq<SubEntity> {
    match e.child_objects {
        Some(c) => c@,
        None => Seq::empty(),
    }
}

/// Every document has children, and every child a number.
pub open spec fn anonymizable(docs: Seq<Entity>) -> bool {
    forall|i: int|
        0 <= i < docs.len() ==> {
            &&& (#[trigger] docs[i]).child_objects is Some
            &&& forall|j: int| 0 <= j < children(docs[i]).len() ==> (#[trigger] children(docs[i])[j]).number is Some
        }
}

/// `after` is `before` with its number anonymized.
pub open spec fn child_anonymized(before: SubEntity, after: SubEntity) -> bool {
    &&& after.id == before.id
    &&& after.name == before.name
    &&& after.number == Some(anonymized_number(before.number.unwrap()))
}

/// `after` is `before` with the numbers of its children anonymized.
pub open spec fn entity_anonymized(before: Entity, after: Entity) -> bool {
    &&& after.id == before.id
    &&& after.document_type == before.document_type
    &&& after.string_array == before.string_array
    &&& after.int_array == before.int_array
    &&& after.child_objects is Some
    &&& children(after).len() == children(before).len()
    &&& forall|j: int| 0 <= j < children(before).len()
        ==> child_anonymized(#[trigger] children(before)[j], children(after)[j])
}

/// `after` holds the documents of `before`, in order, anonymized.
pub open spec fn docs_anonymized(before: Seq<Entity>, after: Seq<Entity>) -> bool {
    &&& after.len() == before.len()
    &&& forall|i: int| 0 <= i < before.len() ==> entity_anonymized(#[trigger] before[i], after[i])
}

/// Anonymization can run exactly on documents that all have children, each
/// child with a number.
pub proof fn lemma_anonymizable_means(docs: Seq<Entity>)
    ensures
        anonymizable(docs) == forall|i: int|
            0 <= i < docs.len() ==> ((#[trigger] docs[i]).child_objects matches Some(kids) && forall|j: int|
                0 <= j < kids@.len() ==> (#[trigger] kids@[j]).number is Some),
{
    if anonymizable(docs) {
        assert forall|i: int| 0 <= i < docs.len() implies ((#[trigger] docs[i]).child_objects matches Some(kids)
            && forall|j: int| 0 <= j < kids@.len() ==> (#[trigger] kids@[j]).number is Some) by {
            let kids = docs[i].child_objects.unwrap();
            assert forall|j: int| 0 <= j < kids@.len() implies (#[trigger] kids@[j]).number is Some by {
                assert(children(docs[i])[j] == kids@[j]);
            }
        }
    }
    if forall|i: int|
        0 <= i < docs.len() ==> ((#[trigger] docs[i]).child_objects matches Some(kids) && forall|j: int|
            0 <= j < kids@.len() ==> (#[trigger] kids@[j]).number is Some) {
        assert forall|i: int| 0 <= i < docs.len() implies {
            &&& (#[trigger] docs[i]).child_objects is Some
            &&& forall|j: int| 0 <= j < children(docs[i]).len() ==> (#[trigger] children(docs[i])[j]).number is Some
        } by {
            let kids = docs[i].child_objects.unwrap();
            assert forall|j: int| 0 <= j < children(docs[i]).len() implies (#[trigger] children(docs[i])[j]).number is Some by {
                assert(children(docs[i])[j] == kids@[j]);
            }
        }
    }
}

/// Whether [`anonymize`] can run on `docs`: every document has children
/// and every child a number.
pub fn can_anonymize(docs: &Vec<Entity>) -> (ok: bool)
    ensures
        ok == anonymizable(docs@),
        ok == forall|i: int|
            0 <= i < docs@.len() ==> ((#[trigger] docs@[i]).child_objects matches Some(kids) && forall|j: int|
                0 <= j < kids@.len() ==> (#[trigger] kids@[j]).number is Some),
{
    proof {
        lemma_anonymizable_means(docs@);
    }
    let n = docs.len();
    let mut i: usize = 0;
    while i < n
        invariant
            n == docs@.len(),
            i <= n,
            anonymizable(docs@.take(i as int)),
        decreases n - i,
    {
        assert(docs@.take(i as int + 1)[i as int] == docs@[i as int]);
        match &docs[i].child_objects {
            None => {
                assert(!anonymizable(docs@)) by {
                    assert(docs@[i as int].child_objects is None);
                }
                return false;
            },
            Some(kids) => {
                let m = kids.len();
                let mut j: usize = 0;
                while j < m
                    invariant
                        m == kids@.len(),
                        i < n,
                        n == docs@.len(),
                        kids@ == children(docs@[i as int]),
                        j <= m,
                        forall|k: int| 0 <= k < j ==> (#[trigger] kids@[k]).number is Some,
                    decreases m - j,
                {
                    if kids[j].number.is_none() {
                        assert(!anonymizable(docs@)) by {
                            assert(children(docs@[i as int])[j as int].number is None);
                        }
                        return false;
                    }
                    j = j + 1;
                }
            },
        }
        assert(anonymizable(docs@.take(i as int + 1))) by {
            assert forall|k: int| 0 <= k < i + 1 implies {
                &&& (#[trigger] docs@.take(i as int + 1)[k]).child_objects is Some
                &&& forall|j: int| 0 <= j < children(docs@.take(i as int + 1)[k]).len()
                    ==> (#[trigger] children(docs@.take(i as int + 1)[k])[j]).number is Some
            } by {
                if k < i {
                    assert(docs@.take(i as int + 1)[k] == docs@.take(i as int)[k]);
                }
            }
        }
        i = i + 1;
    }
    assert(docs@.take(n as int) =~= docs@);
    true
}

fn anonymize_children(kids: Vec<SubEntity>) -> (out: Vec<SubEntity>)
    requires
        forall|j: int| 0 <= j < kids@.len() ==> (#[trigger] kids@[j]).number is Some,
    ensures
        out@.len() == kids@.len(),
        forall|j: int| 0 <= j < kids@.len() ==> child_anonymized(#[trigger] kids@[j], out@[j]),
        forall|j: int|
            0 <= j < kids@.len() ==> (#[trigger] out@[j]).number == Some(
                if kids@[j].number.unwrap() < 100 { 0i32 } else { kids@[j].number.unwrap() },
            ),
{
    let ghost before = kids@;
    let mut out: Vec<SubEntity> = Vec::new();
    for kid in it: kids.into_iter()
        invariant
            it.seq() == before,
            forall|j: int| 0 <= j < before.len() ==> (#[trigger] before[j]).number is Some,
            out@.len() == it.index(),
            forall|j: int| 0 <= j < it.index() ==> child_anonymized(#[trigger] before[j], out@[j]),
    {
        let ghost k = it.index();
        assert(kid == before[k]);
        let SubEntity { id, name, number } = kid;
        let n = number.unwrap();
        let anonymized = if n < ANONYMIZE_BELOW { 0 } else { n };
        out.push(SubEntity { id, name, number: Some(anonymized) });
    }
    out
}

/// Sets the number of every child object below 100 to 0, leaving
/// everything else as it was.
pub fn anonymize(docs: Vec<Entity>) -> (out: Vec<Entity>)
    requires
        anonymizable(docs@),
    ensures
        docs_anonymized(docs@, out@),
        out@.len() == docs@.len(),
        forall|i: int| 0 <= i < docs@.len() ==> (#[trigger] children(out@[i])).len() == children(docs@[i]).len(),
        forall|i: int|
            0 <= i < docs@.len() ==> {
                &&& (#[trigger] out@[i]).id == docs@[i].id
                &&& out@[i].document_type == docs@[i].document_type
                &&& out@[i].string_array == docs@[i].string_array
                &&& out@[i].int_array == docs@[i].int_array
                &&& out@[i].child_objects is Some
            },
        forall|i: int, j: int|
            0 <= i < docs@.len() && 0 <= j < children(docs@[i]).len() ==> {
                let before = children(docs@[i])[j];
                let after = #[trigger] children(out@[i])[j];
                &&& after.id == before.id
                &&& after.name == before.name
                &&& after.number == Some(
                    if before.number.unwrap() < 100 { 0i32 } else { before.number.unwrap() },
                )
            },
{
    let ghost before = docs@;
    let mut out: Vec<Entity> = Vec::new();
    for doc in it: docs.into_iter()
        invariant
            it.seq() == before,
            anonymizable(before),
            out@.len() == it.index(),
            forall|i: int| 0 <= i < it.index() ==> entity_anonymized(#[trigger] before[i], out@[i]),
    {
        let ghost k = it.index();
        assert(doc == before[k]);
        let Entity { id, document_type, string_array, int_array, child_objects } = doc;
        let kids = child_objects.unwrap();
        assert(kids@ == children(before[k]));
        let anonymized = anonymize_children(kids);
        out.push(Entity { id, document_type, string_array, int_array, child_objects: Some(anonymized) });
    }
    proof {
        lemma_anonymized_literal(before, out@);
    }
    out
}

/// Anonymization sets exactly the child numbers below 100 to 0: every
/// number of at least 100 comes out as it went in, every smaller one as 0,
/// and each child keeps its id and name.
pub proof fn lemma_anonymized_literal(docs: Seq<Entity>, out: Seq<Entity>)
    requires
        docs_anonymized(docs, out),
    ensures
        out.len() == docs.len(),
        forall|i: int| 0 <= i < docs.len() ==> (#[trigger] children(out[i])).len() == children(docs[i]).len(),
        forall|i: int|
            0 <= i < docs.len() ==> {
                &&& (#[trigger] out[i]).id == docs[i].id
                &&& out[i].document_type == docs[i].document_type
                &&& out[i].string_array == docs[i].string_array
                &&& out[i].int_array == docs[i].int_array
                &&& out[i].child_objects is Some
            },
        forall|i: int, j: int|
            0 <= i < docs.len() && 0 <= j < children(docs[i]).len() ==> {
                let before = children(docs[i])[j];
                let after = #[trigger] children(out[i])[j];
                &&& after.id == before.id
                &&& after.name == before.name
                &&& after.number == Some(
                    if before.number.unwrap() < 100 { 0i32 } else { before.number.unwrap() },
                )
            },
{
    assert forall|i: int| 0 <= i < docs.len() implies (#[trigger] children(out[i])).len() == children(docs[i]).len() by {
        assert(entity_anonymized(docs[i], out[i]));
    }
    assert forall|i: int| 0 <= i < docs.len() implies {
        &&& (#[trigger] out[i]).id == docs[i].id
        &&& out[i].document_type == docs[i].document_type
        &&& out[i].string_array == docs[i].string_array
        &&& out[i].int_array == docs[i].int_array
        &&& out[i].child_objects is Some
    } by {
        assert(entity_anonymized(docs[i], out[i]));
    }
    assert forall|i: int, j: int| 0 <= i < docs.len() && 0 <= j < children(docs[i]).len() implies {
        let before = children(docs[i])[j];
        let after = #[trigger] children(out[i])[j];
        &&& after.id == before.id
        &&& after.name == before.name
        &&& after.number == Some(
            if before.number.unwrap() < 100 { 0i32 } else { before.number.unwrap() },
        )
    } by {
        assert(entity_anonymized(docs[i], out[i]));
        assert(child_anonymized(children(docs[i])[j], children(out[i])[j]));
    }
}

/// Anonymized documents can be anonymized again, and that changes
/// nothing: their children come out as they went in.
pub proof fn lemma_anonymize_idempotent(docs: Seq<Entity>, once: Seq<Entity>, twice: Seq<Entity>)
    requires
        anonymizable(docs),
        docs_anonymized(docs, once),
    ensures
        anonymizable(once),
        docs_anonymized(once, twice) ==> forall|i: int|
            0 <= i < once.len() ==> #[trigger] children(twice[i]) =~= children(once[i]),
{
    assert forall|i: int| 0 <= i < once.len() implies {
        &&& (#[trigger] once[i]).child_objects is Some
        &&& forall|j: int| 0 <= j < children(once[i]).len() ==> (#[trigger] children(once[i])[j]).number is Some
    } by {
        assert(entity_anonymized(docs[i], once[i]));
        assert forall|j: int| 0 <= j < children(once[i]).len() implies (#[trigger] children(once[i])[j]).number is Some by {
            assert(child_anonymized(children(docs[i])[j], children(once[i])[j]));
        }
    }
    if docs_anonymized(once, twice) {
        assert forall|i: int| 0 <= i < once.len() implies #[trigger] children(twice[i]) =~= children(once[i]) by {
            assert(entity_anonymized(docs[i], once[i]));
            assert(entity_anonymized(once[i], twice[i]));
            assert forall|j: int| 0 <= j < children(once[i]).len() implies children(twice[i])[j] == children(once[i])[j] by {
                assert(child_anonymized(children(docs[i])[j], children(once[i])[j]));
                assert(child_anonymized(children(once[i])[j], children(twice[i])[j]));
            }
        }
    }
}

/// After anonymization every child number is 0 or at least the bound.
pub proof fn lemma_anonymized_numbers(docs: Seq<Entity>, out: Seq<Entity>)
    requires
        anonymizable(docs),
        docs_anonymized(docs, out),
    ensures
        forall|i: int, j: int|
            0 <= i < out.len() && 0 <= j < children(out[i]).len() ==> {
                let n = (#[trigger] children(out[i])[j]).number.unwrap();
                n == 0 || n >= ANONYMIZE_BELOW
            },
{
    assert forall|i: int, j: int| 0 <= i < out.len() && 0 <= j < children(out[i]).len() implies {
        let n = (#[trigger] children(out[i])[j]).number.unwrap();
        n == 0 || n >= ANONYMIZE_BELOW
    } by {
        assert(entity_anonymized(docs[i], out[i]));
        assert(child_anonymized(children(docs[i])[j], children(out[i])[j]));
    }
}

} // verus!
