use vstd::prelude::*;

verus! {

/// File name of the persisted network configuration.
pub const SUI_NETWORK_CONFIG: &'static str = "network.yaml";

/// File name of the persisted wallet (client) configuration.
pub const SUI_CLIENT_CONFIG: &'static str = "client.yaml";

/// File name of the persisted keystore.
pub const SUI_KEYSTORE_FILENAME: &'static str = "sui.keystore";

/// File name of the persisted gateway configuration.
pub const SUI_GATEWAY_CONFIG: &'static str = "gateway.yaml";

/// Directory name of the gateway's own local storage.
pub const CLIENT_DB_DIR: &'static str = "client_db";

/// `name` placed inside directory `dir`.
pub open spec fn joined(dir: Seq<char>, name: Seq<char>) -> Seq<char> {
    if dir.len() == 0 {
        name
    } else if dir.last() == '/' {
        dir + name
    } else {
        dir + seq!['/'] + name
    }
}

/// Places the relative name `name` inside directory `dir`.
pub fn join_path(dir: &str, name: &str) -> (r: String)
    ensures
        r@ == joined(dir@, name@),
{
    let mut r = String::from_str(dir);
    let n = dir.unicode_len();
    if n == 0 {
        r.append(name);
        return r;
    }
    let last = dir.get_char(n - 1);
    if last != '/' {
        r.append("/");
        proof {
            reveal_strlit("/");
        }
    }
    r.append(name);
    r
}

/// Where each artifact of one test network lives in its working directory.
#[derive(Clone, Debug)]
pub struct ArtifactPaths {
    pub network_config: String,
    pub client_config: String,
    pub keystore: String,
    pub gateway_config: String,
    pub client_db: String,
}

impl ArtifactPaths {
    /// Every artifact path is the matching fixed name inside `dir`.
    pub open spec fn inside(self, dir: Seq<char>) -> bool {
        &&& self.network_config@ == joined(dir, SUI_NETWORK_CONFIG@)
        &&& self.client_config@ == joined(dir, SUI_CLIENT_CONFIG@)
        &&& self.keystore@ == joined(dir, SUI_KEYSTORE_FILENAME@)
        &&& self.gateway_config@ == joined(dir, SUI_GATEWAY_CONFIG@)
        &&& self.client_db@ == joined(dir, CLIENT_DB_DIR@)
    }
}

/// Lays out the artifacts of a test network in the working directory `dir`.
pub fn artifact_paths(dir: &str) -> (r: ArtifactPaths)
    ensures
        r.inside(dir@),
{
    ArtifactPaths {
        network_config: join_path(dir, SUI_NETWORK_CONFIG),
        client_config: join_path(dir, SUI_CLIENT_CONFIG),
        keystore: join_path(dir, SUI_KEYSTORE_FILENAME),
        gateway_config: join_path(dir, SUI_GATEWAY_CONFIG),
        client_db: join_path(dir, CLIENT_DB_DIR),
    }
}

/// Within one directory, different names give different paths.
pub proof fn lemma_join_injective(dir: Seq<char>, a: Seq<char>, b: Seq<char>)
    requires
        joined(dir, a) == joined(dir, b),
    ensures
        a == b,
{
    let p = joined(dir, a).len() - a.len();
    assert(a =~= joined(dir, a).subrange(p, joined(dir, a).len() as int));
    assert(b =~= joined(dir, b).subrange(p, joined(dir, b).len() as int));
}

/// The artifacts of one working directory never share a path; in particular
/// the gateway's storage is apart from every configuration file.
pub proof fn lemma_artifacts_distinct(dir: Seq<char>, paths: ArtifactPaths)
    requires
        paths.inside(dir),
    ensures
        paths.network_config@ != paths.client_config@,
        paths.network_config@ != paths.keystore@,
        paths.network_config@ != paths.gateway_config@,
        paths.network_config@ != paths.client_db@,
        paths.client_config@ != paths.keystore@,
        paths.client_config@ != paths.gateway_config@,
        paths.client_config@ != paths.client_db@,
        paths.keystore@ != paths.gateway_config@,
        paths.keystore@ != paths.client_db@,
        paths.gateway_config@ != paths.client_db@,
{
    reveal_strlit("network.yaml");
    reveal_strlit("client.yaml");
    reveal_strlit("sui.keystore");
    reveal_strlit("gateway.yaml");
    reveal_strlit("client_db");
    let names = seq![
        SUI_NETWORK_CONFIG@,
        SUI_CLIENT_CONFIG@,
        SUI_KEYSTORE_FILENAME@,
        SUI_GATEWAY_CONFIG@,
        CLIENT_DB_DIR@,
    ];
    assert forall|i: int, j: int| 0 <= i < j < 5 implies names[i] != names[j] by {
        assert(names[i][0] != names[j][0] || names[i].len() != names[j].len()
            || names[i][1] != names[j][1] || names[i][6] != names[j][6]);
    }
    assert forall|i: int, j: int| 0 <= i < j < 5 implies joined(dir, names[i]) != joined(dir, names[j]) by {
        if joined(dir, names[i]) == joined(dir, names[j]) {
            lemma_join_injective(dir, names[i], names[j]);
        }
    }
}

/// What every path inside `dir` starts with.
pub open spec fn dir_prefix(dir: Seq<char>) -> Seq<char> {
    joined(dir, Seq::empty())
}

proof fn lemma_joined_prefix(dir: Seq<char>, name: Seq<char>)
    ensures
        joined(dir, name) == dir_prefix(dir) + name,
{
    if dir.len() == 0 {
        assert(dir_prefix(dir) =~= Seq::<char>::empty());
        assert(joined(dir, name) =~= dir_prefix(dir) + name);
    } else if dir.last() == '/' {
        assert(dir_prefix(dir) =~= dir);
    } else {
        assert(dir_prefix(dir) =~= dir + seq!['/']);
        assert(joined(dir, name) =~= dir_prefix(dir) + name);
    }
}

/// Two working directories that are different directories (`a` and `a/`
/// are one directory) give different paths for every artifact name: two
/// test networks never share a keystore or a configuration file.
pub proof fn lemma_distinct_dirs_distinct_paths(d1: Seq<char>, d2: Seq<char>, name: Seq<char>)
    requires
        dir_prefix(d1) != dir_prefix(d2),
    ensures
        joined(d1, name) != joined(d2, name),
{
    lemma_joined_prefix(d1, name);
    lemma_joined_prefix(d2, name);
    let p1 = dir_prefix(d1);
    let p2 = dir_prefix(d2);
    assert(joined(d1, name).len() == p1.len() + name.len());
    assert(joined(d2, name).len() == p2.len() + name.len());
    if joined(d1, name) == joined(d2, name) {
        assert(p1 =~= joined(d1, name).subrange(0, p1.len() as int));
        assert(p2 =~= joined(d2, name).subrange(0, p2.len() as int));
    }
}

/// `q` names something inside the directory `p`.
pub open spec fn is_inside(p: Seq<char>, q: Seq<char>) -> bool {
    &&& q.len() > p.len()
    &&& q.subrange(0, p.len() as int) == p
    &&& q[p.len() as int] == '/'
}

/// A single path component: no separator in it.
pub open spec fn is_component(name: Seq<char>) -> bool {
    forall|i: int| 0 <= i < name.len() ==> name[i] != '/'
}

/// The gateway's storage lies apart from the storage of every node kept in
/// the same working directory under a name of its own: the two paths differ
/// and neither lies inside the other.
pub proof fn lemma_gateway_storage_apart(dir: Seq<char>, node_storage: Seq<char>)
    requires
        is_component(node_storage),
        node_storage != CLIENT_DB_DIR@,
    ensures
        joined(dir, CLIENT_DB_DIR@) != joined(dir, node_storage),
        !is_inside(joined(dir, CLIENT_DB_DIR@), joined(dir, node_storage)),
        !is_inside(joined(dir, node_storage), joined(dir, CLIENT_DB_DIR@)),
{
    reveal_strlit("client_db");
    let c = CLIENT_DB_DIR@;
    let n = node_storage;
    let p = dir_prefix(dir);
    lemma_joined_prefix(dir, c);
    lemma_joined_prefix(dir, n);
    let a = p + c;
    let b = p + n;
    if a == b {
        lemma_join_injective(dir, c, n);
    }
    if is_inside(a, b) {
        assert(b[a.len() as int] == n[c.len() as int]);
    }
    if is_inside(b, a) {
        assert(a[b.len() as int] == c[n.len() as int]);
        assert(c[n.len() as int] != '/');
    }
}

} // verus!
