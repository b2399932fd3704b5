//! The containers the benchmark brings up, described as plain values.

use vstd::prelude::*;
use crate::text::{join_spec, lemma_split_join, split_on, split_spec, str_eq, string_views};

verus! {

/// The network that all benchmark containers join.
pub const NETWORK_NAME: &'static str = "restful_api_network";

/// Where an image comes from: built locally, or pulled with a tag.
#[derive(Debug, Clone, PartialEq, Eq)]
pub enum ImageType {
    Local,
    Remote(String),
}

impl ImageType {
    /// The tag to run: `latest` for a local image, the given tag otherwise.
    pub fn get_tag(&self) -> (tag: String)
        ensures
            tag@ == match self {
                ImageType::Local => "latest"@,
                ImageType::Remote(t) => t@,
            },
    {
        match self {
            ImageType::Local => String::from_str("latest"),
            ImageType::Remote(tag) => tag.clone(),
        }
    }
}

pub const SOLR_CONTAINER_NAME: &'static str = "restful_api_solr";
pub const SOLR_IMAGE_NAME: &'static str = "solr";
pub const SOLR_IMAGE_TAG: &'static str = "8.11.2";

pub const ZOOKEEPER_CONTAINER_NAME: &'static str = "restful_api_zookeeper";
pub const ZOOKEEPER_IMAGE_NAME: &'static str = "zookeeper";
pub const ZOOKEEPER_IMAGE_TAG: &'static str = "3.4";

pub const VARNISH_CONTAINER_NAME: &'static str = "restful_api_varnish";
pub const VARNISH_IMAGE_NAME: &'static str = "varnish";
pub const VARNISH_IMAGE_TAG: &'static str = "6.0";

pub const SPEEDBUMP_IMAGE_NAME: &'static str = "kffl/speedbump";
pub const SPEEDBUMP_IMAGE_TAG: &'static str = "v1.1.0";

pub const SPEEDBUMP_FAST_CONTAINER_NAME: &'static str = "restful_api_speedbump_fast";
pub const SPEEDBUMP_FAST_COMMAND: &'static str = "--latency 20ms --port 8984 varnish:8983";

pub const SPEEDBUMP_SLOW_CONTAINER_NAME: &'static str = "restful_api_speedbump_slow";
pub const SPEEDBUMP_SLOW_COMMAND: &'static str = "--latency 200ms --port 8984 varnish:8983";

/// The container that runs the load generator.
pub const OHA_CONTAINER_NAME: &'static str = "restful_api_oha";

/// The container port that Varnish listens on inside the network.
pub const VARNISH_CONTAINER_PORT: u32 = 80;

/// The memory limit of the Solr container, in bytes.
pub const SOLR_MEMORY_LIMIT: u64 = 1_000_000_000;

/// A container to create, start and attach to the benchmark network.
#[derive(Debug, Clone)]
pub struct ContainerSpec {
    /// The container's name.
    pub name: String,
    /// The image repository, pulled first when the image is remote.
    pub image_name: String,
    /// Where the image comes from.
    pub image_type: ImageType,
    /// The image reference to run, `repository:tag`.
    pub image: String,
    /// The hostname inside the network, where one is set.
    pub hostname: Option<String>,
    /// Bind mounts, `host:container`.
    pub volumes: Vec<String>,
    /// The command's arguments, where one is set.
    pub command: Option<Vec<String>>,
    /// Environment entries, `KEY=value`.
    pub env: Vec<String>,
    /// A memory limit in bytes, where one is set.
    pub memory: Option<u64>,
    /// A published port: the container's TCP port and the host port.
    pub published: Option<(u32, u32)>,
}

/// The abstract content of a [`ContainerSpec`].
pub struct ContainerPlan {
    pub name: Seq<char>,
    pub image_name: Seq<char>,
    /// `None` for a local image, the tag to pull for a remote one.
    pub remote_tag: Option<Seq<char>>,
    pub image: Seq<char>,
    pub hostname: Option<Seq<char>>,
    pub volumes: Seq<Seq<char>>,
    pub command: Option<Seq<Seq<char>>>,
    pub env: Seq<Seq<char>>,
    pub memory: Option<u64>,
    pub published: Option<(u32, u32)>,
}

/// The tag of an image kind, as [`ImageType::get_tag`] gives it.
pub open spec fn tag_of(image_type: ImageType) -> Seq<char> {
    match image_type {
        ImageType::Local => "latest"@,
        ImageType::Remote(t) => t@,
    }
}

/// `None` for a local image, the tag to pull for a remote one.
pub open spec fn remote_tag_of(image_type: ImageType) -> Option<Seq<char>> {
    match image_type {
        ImageType::Local => None,
        ImageType::Remote(t) => Some(t@),
    }
}

impl View for ContainerSpec {
    type V = ContainerPlan;

    open spec fn view(&self) -> ContainerPlan {
        ContainerPlan {
            name: self.name@,
            image_name: self.image_name@,
            remote_tag: remote_tag_of(self.image_type),
            image: self.image@,
            hostname: match self.hostname {
                Some(h) => Some(h@),
                None => None,
            },
            volumes: string_views(self.volumes@),
            command: match self.command {
                Some(c) => Some(string_views(c@)),
                None => None,
            },
            env: string_views(self.env@),
            memory: self.memory,
            published: self.published,
        }
    }
}

/// The views of a sequence of container specifications.
pub open spec fn plan_views(v: Seq<ContainerSpec>) -> Seq<ContainerPlan> {
    v.map_values(|c: ContainerSpec| c@)
}

/// The image reference `name:tag`.
pub open spec fn image_ref(name: Seq<char>, tag: Seq<char>) -> Seq<char> {
    name + ":"@ + tag
}

/// A remote image pulled under its name and run as a named host.
pub open spec fn service_plan(
    name: Seq<char>,
    image_name: Seq<char>,
    tag: Seq<char>,
    hostname: Seq<char>,
) -> ContainerPlan {
    ContainerPlan {
        name,
        image_name,
        remote_tag: Some(tag),
        image: image_ref(image_name, tag),
        hostname: Some(hostname),
        volumes: Seq::empty(),
        command: None,
        env: Seq::empty(),
        memory: None,
        published: None,
    }
}

/// ZooKeeper, which coordinates Solr.
pub open spec fn zookeeper_plan(current_dir: Seq<char>) -> ContainerPlan {
    ContainerPlan {
        volumes: seq![current_dir + "/benchmark_server/start_zk.sh:/start_zk.sh"@],
        command: Some(seq!["/start_zk.sh"@]),
        env: seq![
            "ZOO_MY_ID=1"@,
            "ZOO_PORT=2181"@,
            "ZOO_SERVERS=server.1=zookeeper:2888:3888"@,
        ],
        ..service_plan(ZOOKEEPER_CONTAINER_NAME@, ZOOKEEPER_IMAGE_NAME@, ZOOKEEPER_IMAGE_TAG@, "zookeeper"@)
    }
}

/// Solr, which holds the test documents.
pub open spec fn solr_plan(current_dir: Seq<char>) -> ContainerPlan {
    ContainerPlan {
        volumes: seq![current_dir + "/benchmark_server/start_solr.sh:/start_solr.sh"@],
        memory: Some(SOLR_MEMORY_LIMIT),
        command: Some(seq!["/start_solr.sh"@]),
        env: seq!["ZK_HOST=zookeeper"@, "SOLR_JAVA_MEM=-Xms512m -Xmx512m"@],
        ..service_plan(SOLR_CONTAINER_NAME@, SOLR_IMAGE_NAME@, SOLR_IMAGE_TAG@, "solr"@)
    }
}

/// Varnish, the cache in front of Solr, published on `port` of the host.
pub open spec fn varnish_plan(current_dir: Seq<char>, port: u16) -> ContainerPlan {
    ContainerPlan {
        published: Some((VARNISH_CONTAINER_PORT, port as u32)),
        volumes: seq![current_dir + "/benchmark_server/varnish.vcl:/etc/varnish/default.vcl"@],
        ..service_plan(VARNISH_CONTAINER_NAME@, VARNISH_IMAGE_NAME@, VARNISH_IMAGE_TAG@, "varnish"@)
    }
}

/// A speedbump proxy that delays traffic to Varnish.
pub open spec fn speedbump_plan(name: Seq<char>, hostname: Seq<char>, command: Seq<char>) -> ContainerPlan {
    ContainerPlan {
        command: Some(split_spec(command, ' ')),
        ..service_plan(name, SPEEDBUMP_IMAGE_NAME@, SPEEDBUMP_IMAGE_TAG@, hostname)
    }
}

/// The backend that `start_backend` brings up, in order: ZooKeeper, Solr
/// and Varnish, then, unless in development mode, the fast and the slow
/// speedbump.
pub open spec fn backend_plan_spec(current_dir: Seq<char>, port: u16, development: bool) -> Seq<ContainerPlan> {
    let base = seq![zookeeper_plan(current_dir), solr_plan(current_dir), varnish_plan(current_dir, port)];
    if development {
        base
    } else {
        base + seq![
            speedbump_plan(SPEEDBUMP_FAST_CONTAINER_NAME@, "speedbump_fast"@, SPEEDBUMP_FAST_COMMAND@),
            speedbump_plan(SPEEDBUMP_SLOW_CONTAINER_NAME@, "speedbump_slow"@, SPEEDBUMP_SLOW_COMMAND@),
        ]
    }
}

/// Each container of the backend runs the image it is meant to under its
/// own name and hostname: ZooKeeper, Solr and Varnish (published on
/// `port`), then, outside development mode, the fast and the slow
/// speedbump; no two of them share a hostname.
pub proof fn lemma_backend_hosts(current_dir: Seq<char>, port: u16, development: bool)
    ensures
        ({
            let plan = backend_plan_spec(current_dir, port, development);
            &&& plan.len() == (if development { 3int } else { 5int })
            &&& plan[0].name == "restful_api_zookeeper"@
            &&& plan[0].hostname == Some("zookeeper"@)
            &&& plan[0].image == "zookeeper:3.4"@
            &&& plan[1].name == "restful_api_solr"@
            &&& plan[1].hostname == Some("solr"@)
            &&& plan[1].image == "solr:8.11.2"@
            &&& plan[2].name == "restful_api_varnish"@
            &&& plan[2].hostname == Some("varnish"@)
            &&& plan[2].image == "varnish:6.0"@
            &&& plan[2].published == Some((80u32, port as u32))
            &&& !development ==> plan[3].name == "restful_api_speedbump_fast"@
            &&& !development ==> plan[3].hostname == Some("speedbump_fast"@)
            &&& !development ==> plan[3].image == "kffl/speedbump:v1.1.0"@
            &&& !development ==> plan[4].name == "restful_api_speedbump_slow"@
            &&& !development ==> plan[4].hostname == Some("speedbump_slow"@)
            &&& !development ==> plan[4].image == "kffl/speedbump:v1.1.0"@
        }),
        forall|i: int, j: int|
            0 <= i < j < backend_plan_spec(current_dir, port, development).len() ==>
                #[trigger] backend_plan_spec(current_dir, port, development)[i].hostname
                    != #[trigger] backend_plan_spec(current_dir, port, development)[j].hostname,
{
    reveal_strlit("zookeeper");
    reveal_strlit("solr");
    reveal_strlit("varnish");
    reveal_strlit("speedbump_fast");
    reveal_strlit("speedbump_slow");
    reveal_strlit("zookeeper:3.4");
    reveal_strlit("3.4");
    reveal_strlit("solr:8.11.2");
    reveal_strlit("8.11.2");
    reveal_strlit("varnish:6.0");
    reveal_strlit("6.0");
    reveal_strlit("kffl/speedbump:v1.1.0");
    reveal_strlit("kffl/speedbump");
    reveal_strlit("v1.1.0");
    reveal_strlit(":");
    let plan = backend_plan_spec(current_dir, port, false);
    assert(plan[0].image =~= "zookeeper:3.4"@);
    assert(plan[1].image =~= "solr:8.11.2"@);
    assert(plan[2].image =~= "varnish:6.0"@);
    assert(plan[3].image =~= "kffl/speedbump:v1.1.0"@);
    assert(plan[4].image =~= "kffl/speedbump:v1.1.0"@);
    let h0 = "zookeeper"@;
    let h1 = "solr"@;
    let h2 = "varnish"@;
    let h3 = "speedbump_fast"@;
    let h4 = "speedbump_slow"@;
    assert(h0.len() == 9 && h1.len() == 4 && h2.len() == 7 && h3.len() == 14 && h4.len() == 14);
    assert(h0 != h2) by { assert(h0[0] != h2[0]); }
    assert(h3 != h4) by { assert(h3[10] != h4[10]); }
    lemma_development_plan_is_prefix(current_dir, port);
}

proof fn lemma_speedbump_words()
    ensures
        split_spec(SPEEDBUMP_FAST_COMMAND@, ' ') == seq!["--latency"@, "20ms"@, "--port"@, "8984"@, "varnish:8983"@],
        split_spec(SPEEDBUMP_SLOW_COMMAND@, ' ') == seq!["--latency"@, "200ms"@, "--port"@, "8984"@, "varnish:8983"@],
{
    reveal_strlit("--latency 20ms --port 8984 varnish:8983");
    reveal_strlit("--latency 200ms --port 8984 varnish:8983");
    reveal_strlit("--latency");
    reveal_strlit("20ms");
    reveal_strlit("200ms");
    reveal_strlit("--port");
    reveal_strlit("8984");
    reveal_strlit("varnish:8983");
    let sp = seq![' '];
    let fast = seq!["--latency"@, "20ms"@, "--port"@, "8984"@, "varnish:8983"@];
    let slow = seq!["--latency"@, "200ms"@, "--port"@, "8984"@, "varnish:8983"@];
    reveal_with_fuel(join_spec, 6);
    assert(fast.drop_last() =~= seq!["--latency"@, "20ms"@, "--port"@, "8984"@]);
    assert(fast.drop_last().drop_last() =~= seq!["--latency"@, "20ms"@, "--port"@]);
    assert(fast.drop_last().drop_last().drop_last() =~= seq!["--latency"@, "20ms"@]);
    assert(fast.drop_last().drop_last().drop_last().drop_last() =~= seq!["--latency"@]);
    assert(slow.drop_last() =~= seq!["--latency"@, "200ms"@, "--port"@, "8984"@]);
    assert(slow.drop_last().drop_last() =~= seq!["--latency"@, "200ms"@, "--port"@]);
    assert(slow.drop_last().drop_last().drop_last() =~= seq!["--latency"@, "200ms"@]);
    assert(slow.drop_last().drop_last().drop_last().drop_last() =~= seq!["--latency"@]);
    assert(join_spec(fast, sp) =~= SPEEDBUMP_FAST_COMMAND@);
    assert(join_spec(slow, sp) =~= SPEEDBUMP_SLOW_COMMAND@);
    assert forall|i: int| 0 <= i < fast.len() implies !(#[trigger] fast[i]).contains(' ') by {
        assert forall|k: int| 0 <= k < fast[i].len() implies fast[i][k] != ' ' by {}
    }
    assert forall|i: int| 0 <= i < slow.len() implies !(#[trigger] slow[i]).contains(' ') by {
        assert forall|k: int| 0 <= k < slow[i].len() implies slow[i][k] != ' ' by {}
    }
    lemma_split_join(fast, ' ');
    lemma_split_join(slow, ' ');
}

/// What each container of the backend mounts, runs and is given: ZooKeeper
/// and Solr their start scripts from the working directory, Varnish its
/// configuration, Solr a 1 GB memory limit, and the speedbumps a latency of
/// 20 ms and 200 ms in front of Varnish.
pub proof fn lemma_backend_settings(current_dir: Seq<char>, port: u16, development: bool)
    ensures
        ({
            let plan = backend_plan_spec(current_dir, port, development);
            &&& plan[0].volumes == seq![current_dir + "/benchmark_server/start_zk.sh:/start_zk.sh"@]
            &&& plan[0].command == Some(seq!["/start_zk.sh"@])
            &&& plan[0].env == seq![
                "ZOO_MY_ID=1"@,
                "ZOO_PORT=2181"@,
                "ZOO_SERVERS=server.1=zookeeper:2888:3888"@,
            ]
            &&& plan[0].memory is None
            &&& plan[0].remote_tag == Some("3.4"@)
            &&& plan[1].volumes == seq![current_dir + "/benchmark_server/start_solr.sh:/start_solr.sh"@]
            &&& plan[1].command == Some(seq!["/start_solr.sh"@])
            &&& plan[1].env == seq!["ZK_HOST=zookeeper"@, "SOLR_JAVA_MEM=-Xms512m -Xmx512m"@]
            &&& plan[1].memory == Some(1_000_000_000u64)
            &&& plan[1].remote_tag == Some("8.11.2"@)
            &&& plan[2].volumes == seq![current_dir + "/benchmark_server/varnish.vcl:/etc/varnish/default.vcl"@]
            &&& plan[2].command is None
            &&& plan[2].env.len() == 0
            &&& plan[2].memory is None
            &&& plan[2].remote_tag == Some("6.0"@)
            &&& forall|i: int| 0 <= i < plan.len() && i != 2 ==> (#[trigger] plan[i]).published is None
            &&& !development ==> plan[3].command == Some(
                seq!["--latency"@, "20ms"@, "--port"@, "8984"@, "varnish:8983"@],
            )
            &&& !development ==> plan[4].command == Some(
                seq!["--latency"@, "200ms"@, "--port"@, "8984"@, "varnish:8983"@],
            )
            &&& !development ==> plan[3].volumes.len() == 0 && plan[3].env.len() == 0 && plan[3].memory is None
            &&& !development ==> plan[4].volumes.len() == 0 && plan[4].env.len() == 0 && plan[4].memory is None
            &&& !development ==> plan[3].remote_tag == Some("v1.1.0"@) && plan[4].remote_tag == Some("v1.1.0"@)
        }),
{
    lemma_speedbump_words();
    lemma_development_plan_is_prefix(current_dir, port);
}

/// Development mode brings up the same containers as a full run, except
/// the two speedbumps that a full run adds at the end.
pub proof fn lemma_development_plan_is_prefix(current_dir: Seq<char>, port: u16)
    ensures
        backend_plan_spec(current_dir, port, true).len() == 3,
        backend_plan_spec(current_dir, port, false).len() == 5,
        backend_plan_spec(current_dir, port, true) == backend_plan_spec(current_dir, port, false).take(3),
{
    assert(backend_plan_spec(current_dir, port, true) =~= backend_plan_spec(current_dir, port, false).take(3));
}

/// No two containers of the backend share a name.
pub proof fn lemma_backend_names_distinct(current_dir: Seq<char>, port: u16, development: bool)
    ensures
        forall|i: int, j: int|
            0 <= i < j < backend_plan_spec(current_dir, port, development).len() ==>
                #[trigger] backend_plan_spec(current_dir, port, development)[i].name
                    != #[trigger] backend_plan_spec(current_dir, port, development)[j].name,
{
    reveal_strlit("restful_api_zookeeper");
    reveal_strlit("restful_api_solr");
    reveal_strlit("restful_api_varnish");
    reveal_strlit("restful_api_speedbump_fast");
    reveal_strlit("restful_api_speedbump_slow");
    let p = backend_plan_spec(current_dir, port, false);
    assert(p[0].name.len() == 21);
    assert(p[1].name.len() == 16);
    assert(p[2].name.len() == 19);
    assert(p[3].name.len() == 26);
    assert(p[4].name.len() == 26);
    assert(p[3].name[22] != p[4].name[22]);
    lemma_development_plan_is_prefix(current_dir, port);
}

fn owned(s: &str) -> (o: String)
    ensures
        o@ == s@,
{
    String::from_str(s)
}

/// `name:tag`.
fn image_reference(name: &str, tag: &str) -> (r: String)
    ensures
        r@ == image_ref(name@, tag@),
{
    let mut r = owned(name);
    r.append(":");
    r.append(tag);
    r
}

/// `prefix` followed by `suffix`.
fn concat(prefix: &str, suffix: &str) -> (r: String)
    ensures
        r@ == prefix@ + suffix@,
{
    let mut r = owned(prefix);
    r.append(suffix);
    r
}

fn remote_service(name: &str, image_name: &str, tag: &str, hostname: &str) -> (c: ContainerSpec)
    ensures
        c@ == service_plan(name@, image_name@, tag@, hostname@),
{
    let c = ContainerSpec {
        name: owned(name),
        image_name: owned(image_name),
        image_type: ImageType::Remote(owned(tag)),
        image: image_reference(image_name, tag),
        hostname: Some(owned(hostname)),
        volumes: Vec::new(),
        command: None,
        env: Vec::new(),
        memory: None,
        published: None,
    };
    assert(string_views(c.volumes@) =~= Seq::empty());
    assert(string_views(c.env@) =~= Seq::empty());
    c
}

fn speedbump(name: &str, hostname: &str, command: &str) -> (c: ContainerSpec)
    ensures
        c@ == speedbump_plan(name@, hostname@, command@),
{
    let mut c = remote_service(name, SPEEDBUMP_IMAGE_NAME, SPEEDBUMP_IMAGE_TAG, hostname);
    c.command = Some(split_on(command, ' '));
    c
}

/// The containers of the backend, in the order in which they are started.
pub fn backend_plan(current_dir: &str, port: u16, development: bool) -> (plan: Vec<ContainerSpec>)
    ensures
        plan_views(plan@) == backend_plan_spec(current_dir@, port, development),
        plan@.len() == (if development { 3int } else { 5int }),
        plan_views(plan@)[0].name == "restful_api_zookeeper"@,
        plan_views(plan@)[0].hostname == Some("zookeeper"@),
        plan_views(plan@)[0].image == "zookeeper:3.4"@,
        plan_views(plan@)[1].name == "restful_api_solr"@,
        plan_views(plan@)[1].hostname == Some("solr"@),
        plan_views(plan@)[1].image == "solr:8.11.2"@,
        plan_views(plan@)[2].name == "restful_api_varnish"@,
        plan_views(plan@)[2].hostname == Some("varnish"@),
        plan_views(plan@)[2].image == "varnish:6.0"@,
        plan_views(plan@)[2].published == Some((80u32, port as u32)),
        !development ==> plan_views(plan@)[3].name == "restful_api_speedbump_fast"@,
        !development ==> plan_views(plan@)[3].hostname == Some("speedbump_fast"@),
        !development ==> plan_views(plan@)[3].image == "kffl/speedbump:v1.1.0"@,
        !development ==> plan_views(plan@)[4].name == "restful_api_speedbump_slow"@,
        !development ==> plan_views(plan@)[4].hostname == Some("speedbump_slow"@),
        !development ==> plan_views(plan@)[4].image == "kffl/speedbump:v1.1.0"@,
        forall|i: int, j: int|
            0 <= i < j < plan@.len() ==> #[trigger] plan_views(plan@)[i].hostname != #[trigger] plan_views(plan@)[j].hostname,
{
    let mut zookeeper = remote_service(
        ZOOKEEPER_CONTAINER_NAME,
        ZOOKEEPER_IMAGE_NAME,
        ZOOKEEPER_IMAGE_TAG,
        "zookeeper",
    );
    zookeeper.volumes = vec![concat(current_dir, "/benchmark_server/start_zk.sh:/start_zk.sh")];
    zookeeper.command = Some(vec![owned("/start_zk.sh")]);
    zookeeper.env = vec![
        owned("ZOO_MY_ID=1"),
        owned("ZOO_PORT=2181"),
        owned("ZOO_SERVERS=server.1=zookeeper:2888:3888"),
    ];
    assert(zookeeper@ == zookeeper_plan(current_dir@)) by {
        assert(string_views(zookeeper.volumes@) =~= zookeeper_plan(current_dir@).volumes);
        assert(string_views(zookeeper.command.unwrap()@) =~= zookeeper_plan(current_dir@).command.unwrap());
        assert(string_views(zookeeper.env@) =~= zookeeper_plan(current_dir@).env);
    }

    let mut solr = remote_service(SOLR_CONTAINER_NAME, SOLR_IMAGE_NAME, SOLR_IMAGE_TAG, "solr");
    solr.volumes = vec![concat(current_dir, "/benchmark_server/start_solr.sh:/start_solr.sh")];
    solr.memory = Some(SOLR_MEMORY_LIMIT);
    solr.command = Some(vec![owned("/start_solr.sh")]);
    solr.env = vec![owned("ZK_HOST=zookeeper"), owned("SOLR_JAVA_MEM=-Xms512m -Xmx512m")];
    assert(solr@ == solr_plan(current_dir@)) by {
        assert(string_views(solr.volumes@) =~= solr_plan(current_dir@).volumes);
        assert(string_views(solr.command.unwrap()@) =~= solr_plan(current_dir@).command.unwrap());
        assert(string_views(solr.env@) =~= solr_plan(current_dir@).env);
    }

    let mut varnish = remote_service(VARNISH_CONTAINER_NAME, VARNISH_IMAGE_NAME, VARNISH_IMAGE_TAG, "varnish");
    varnish.published = Some((VARNISH_CONTAINER_PORT, port as u32));
    varnish.volumes = vec![concat(current_dir, "/benchmark_server/varnish.vcl:/etc/varnish/default.vcl")];
    assert(varnish@ == varnish_plan(current_dir@, port)) by {
        assert(string_views(varnish.volumes@) =~= varnish_plan(current_dir@, port).volumes);
    }

    let mut plan = vec![zookeeper, solr, varnish];
    assert(plan_views(plan@) =~= backend_plan_spec(current_dir@, port, true));
    if !development {
        plan.push(speedbump(SPEEDBUMP_FAST_CONTAINER_NAME, "speedbump_fast", SPEEDBUMP_FAST_COMMAND));
        plan.push(speedbump(SPEEDBUMP_SLOW_CONTAINER_NAME, "speedbump_slow", SPEEDBUMP_SLOW_COMMAND));
        assert(plan_views(plan@) =~= backend_plan_spec(current_dir@, port, false));
    }
    proof {
        lemma_backend_hosts(current_dir@, port, development);
        lemma_backend_settings(current_dir@, port, development);
    }
    plan
}

/// A framework under test, named after its image and reachable under its
/// name, told where its backend lives.
pub open spec fn framework_container_plan(
    container_name: Seq<char>,
    image_type: ImageType,
    benchmark_host: Seq<char>,
) -> ContainerPlan {
    ContainerPlan {
        name: container_name,
        image_name: container_name,
        remote_tag: remote_tag_of(image_type),
        image: image_ref(container_name, tag_of(image_type)),
        hostname: Some(container_name),
        volumes: Seq::empty(),
        command: None,
        env: seq!["BENCHMARK_HOST="@ + benchmark_host],
        memory: None,
        published: None,
    }
}

/// The load generator, run with `command` split at its spaces.
pub open spec fn runner_container_plan(image_type: ImageType, command: Seq<char>) -> ContainerPlan {
    ContainerPlan {
        name: OHA_CONTAINER_NAME@,
        image_name: OHA_CONTAINER_NAME@,
        remote_tag: remote_tag_of(image_type),
        image: image_ref(OHA_CONTAINER_NAME@, tag_of(image_type)),
        hostname: None,
        volumes: Seq::empty(),
        command: Some(split_spec(command, ' ')),
        env: Seq::empty(),
        memory: None,
        published: None,
    }
}

/// A framework runs the image kind it is given: a local image is never
/// pulled and runs under the tag `latest`, a remote one is pulled and runs
/// under its own tag; the load generator likewise.
pub proof fn lemma_containers_keep_image_kind(
    container_name: Seq<char>,
    image_type: ImageType,
    benchmark_host: Seq<char>,
    command: Seq<char>,
)
    ensures
        framework_container_plan(container_name, image_type, benchmark_host).remote_tag == (match image_type {
            ImageType::Local => None,
            ImageType::Remote(t) => Some(t@),
        }),
        runner_container_plan(image_type, command).remote_tag == (match image_type {
            ImageType::Local => None,
            ImageType::Remote(t) => Some(t@),
        }),
        framework_container_plan(container_name, image_type, benchmark_host).image == container_name + ":"@
            + (match image_type {
            ImageType::Local => "latest"@,
            ImageType::Remote(t) => t@,
        }),
        runner_container_plan(image_type, command).image == "restful_api_oha:"@ + (match image_type {
            ImageType::Local => "latest"@,
            ImageType::Remote(t) => t@,
        }),
{
    reveal_strlit("restful_api_oha:");
    reveal_strlit("restful_api_oha");
    reveal_strlit(":");
    assert("restful_api_oha:"@ =~= "restful_api_oha"@ + ":"@);
    let t = tag_of(image_type);
    assert(runner_container_plan(image_type, command).image =~= "restful_api_oha:"@ + t);
}

/// The container of the framework `container_name`, whose backend is
/// `benchmark_host`.
pub fn framework_container(container_name: &str, image_type: ImageType, benchmark_host: &str) -> (c: ContainerSpec)
    ensures
        c@ == framework_container_plan(container_name@, image_type, benchmark_host@),
        c.image_type == image_type,
        c@.remote_tag == (match image_type {
            ImageType::Local => None,
            ImageType::Remote(t) => Some(t@),
        }),
        c@.image == container_name@ + ":"@ + (match image_type {
            ImageType::Local => "latest"@,
            ImageType::Remote(t) => t@,
        }),
        c@.name == container_name@,
        c@.hostname == Some(container_name@),
        c@.env == seq!["BENCHMARK_HOST="@ + benchmark_host@],
{
    let tag = image_type.get_tag();
    let c = ContainerSpec {
        name: owned(container_name),
        image_name: owned(container_name),
        image_type,
        image: image_reference(container_name, tag.as_str()),
        hostname: Some(owned(container_name)),
        volumes: Vec::new(),
        command: None,
        env: vec![concat("BENCHMARK_HOST=", benchmark_host)],
        memory: None,
        published: None,
    };
    assert(string_views(c.volumes@) =~= Seq::empty());
    assert(string_views(c.env@) =~= seq!["BENCHMARK_HOST="@ + benchmark_host@]);
    proof {
        lemma_containers_keep_image_kind(container_name@, image_type, benchmark_host@, Seq::empty());
    }
    c
}

/// The container of the load generator that runs `command`.
pub fn runner_container(image_type: ImageType, command: &str) -> (c: ContainerSpec)
    ensures
        c@ == runner_container_plan(image_type, command@),
        c.image_type == image_type,
        c@.remote_tag == (match image_type {
            ImageType::Local => None,
            ImageType::Remote(t) => Some(t@),
        }),
        c@.image == "restful_api_oha:"@ + (match image_type {
            ImageType::Local => "latest"@,
            ImageType::Remote(t) => t@,
        }),
        c@.command == Some(split_spec(command@, ' ')),
{
    let tag = image_type.get_tag();
    let c = ContainerSpec {
        name: owned(OHA_CONTAINER_NAME),
        image_name: owned(OHA_CONTAINER_NAME),
        image_type,
        image: image_reference(OHA_CONTAINER_NAME, tag.as_str()),
        hostname: None,
        volumes: Vec::new(),
        command: Some(split_on(command, ' ')),
        env: Vec::new(),
        memory: None,
        published: None,
    };
    assert(string_views(c.volumes@) =~= Seq::empty());
    assert(string_views(c.env@) =~= Seq::empty());
    proof {
        lemma_containers_keep_image_kind(Seq::empty(), image_type, Seq::empty(), command@);
    }
    c
}

/// The view of an optional name.
pub open spec fn name_view(n: Option<String>) -> Option<Seq<char>> {
    match n {
        Some(s) => Some(s@),
        None => None,
    }
}

/// Whether one of the listed networks, given by their optional names, is
/// called `network_name`.
pub fn has_network(names: &Vec<Option<String>>, network_name: &str) -> (found: bool)
    ensures
        found == exists|i: int| 0 <= i < names@.len() && name_view(#[trigger] names@[i]) == Some(network_name@),
{
    let n = names.len();
    let mut i: usize = 0;
    while i < n
        invariant
            n == names@.len(),
            i <= n,
            forall|k: int| 0 <= k < i ==> name_view(#[trigger] names@[k]) != Some(network_name@),
        decreases n - i,
    {
        match &names[i] {
            Some(name) => {
                if str_eq(name.as_str(), network_name) {
                    assert(name_view(names@[i as int]) == Some(network_name@));
                    return true;
                }
            },
            None => {},
        }
        i = i + 1;
    }
    false
}

} // verus!
