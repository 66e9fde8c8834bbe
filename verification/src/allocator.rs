//! The resource allocator.
//!
//! Given the current registry, computes descriptors for new instances:
//! a service name made of a fixed prefix and the smallest unused ordinal
//! (so an ordinal freed by a manual removal is reused rather than the
//! fleet growing unboundedly), an RPC port found by scanning upward from
//! a fixed base past every port already taken, and filesystem locations
//! derived from the service name.

use vstd::prelude::*;
use vstd::relations::injective_on;
use vstd::seq_lib::seq_to_set_is_finite;
use vstd::set_lib::lemma_int_range;
use vstd::set_lib::lemma_len_subset;
use vstd::set_lib::lemma_map_size;
use vstd::set_lib::set_int_range;

use crate::numerals::dec_of;
use crate::numerals::lemma_dec_of_injective;
use crate::numerals::push_dec;
use crate::registry::RecordModel;
use crate::registry::Registry;

verus! {

/// The first RPC port the allocator considers.
pub const PORT_BASE: u16 = 8080;

/// Every service name is this prefix followed by a decimal ordinal.
pub open spec fn service_name_prefix() -> Seq<char> {
    "safenode"@
}

/// The service name with ordinal `k`.
pub open spec fn name_of_ordinal(k: nat) -> Seq<char> {
    service_name_prefix() + dec_of(k)
}

/// The data directory derived from a service name.
pub open spec fn data_dir_of(name: Seq<char>) -> Seq<char> {
    "/var/safenode-manager/services/"@ + name
}

/// The log directory derived from a service name.
pub open spec fn log_dir_of(name: Seq<char>) -> Seq<char> {
    "/var/log/safenode/"@ + name
}

/// The per-instance binary location derived from a service name.
pub open spec fn binary_path_of(name: Seq<char>) -> Seq<char> {
    data_dir_of(name) + "/safenode"@
}

/// Everything the install orchestrator needs to register one new
/// instance: the allocated identity, resources, and install parameters.
pub struct InstanceDescriptor {
    pub service_name: String,
    pub rpc_port: u16,
    pub version: String,
    pub user: String,
    pub binary_path: String,
    pub data_dir_path: String,
    pub log_dir_path: String,
}

/// Ghost mirror of [`InstanceDescriptor`].
pub ghost struct DescModel {
    pub service_name: Seq<char>,
    pub rpc_port: u16,
    pub version: Seq<char>,
    pub user: Seq<char>,
    pub binary_path: Seq<char>,
    pub data_dir_path: Seq<char>,
    pub log_dir_path: Seq<char>,
}

impl InstanceDescriptor {
    /// Mathematical model of a descriptor.
    pub open spec fn model(self) -> DescModel {
        DescModel {
            service_name: self.service_name@,
            rpc_port: self.rpc_port,
            version: self.version@,
            user: self.user@,
            binary_path: self.binary_path@,
            data_dir_path: self.data_dir_path@,
            log_dir_path: self.log_dir_path@,
        }
    }
}

/// The models of a sequence of descriptors.
pub open spec fn descs_model(ds: Seq<InstanceDescriptor>) -> Seq<DescModel> {
    ds.map_values(|d: InstanceDescriptor| d.model())
}

/// Whether `name` is the service name of some existing record or of some
/// descriptor allocated earlier in the same call.
pub open spec fn name_used(rs: Seq<RecordModel>, ds: Seq<DescModel>, name: Seq<char>) -> bool {
    (exists|i: int| 0 <= i < rs.len() && rs[i].service_name == name) || (exists|i: int|
        0 <= i < ds.len() && ds[i].service_name == name)
}

/// Whether `p` is the RPC port of some existing record or of some
/// descriptor allocated earlier in the same call.
pub open spec fn port_used(rs: Seq<RecordModel>, ds: Seq<DescModel>, p: u16) -> bool {
    (exists|i: int| 0 <= i < rs.len() && rs[i].rpc_port == p) || (exists|i: int|
        0 <= i < ds.len() && ds[i].rpc_port == p)
}

/// Distinct ordinals give distinct service names.
pub proof fn lemma_name_of_ordinal_injective(a: nat, b: nat)
    requires
        name_of_ordinal(a) == name_of_ordinal(b),
    ensures
        a == b,
{
    let p = service_name_prefix();
    assert(name_of_ordinal(a).len() == p.len() + dec_of(a).len());
    assert(name_of_ordinal(b).len() == p.len() + dec_of(b).len());
    assert(dec_of(a) =~= name_of_ordinal(a).subrange(
        p.len() as int,
        name_of_ordinal(a).len() as int,
    ));
    assert(dec_of(b) =~= name_of_ordinal(b).subrange(
        p.len() as int,
        name_of_ordinal(b).len() as int,
    ));
    lemma_dec_of_injective(a, b);
}

/// Pigeonhole: among the first `n + 1` candidates of an injective
/// enumeration, at least one is not in a taken-set of size at most `n`.
proof fn lemma_free_slot<B>(taken: Set<B>, f: spec_fn(int) -> B, n: int)
    requires
        0 <= n,
        taken.finite(),
        taken.len() <= n,
        injective_on(f, set_int_range(0, n + 1)),
    ensures
        exists|k: int| 0 <= k <= n && !taken.contains(#[trigger] f(k)),
{
    if forall|k: int| 0 <= k <= n ==> taken.contains(#[trigger] f(k)) {
        let c = set_int_range(0, n + 1);
        lemma_int_range(0, n + 1);
        let img = c.map(f);
        lemma_map_size(c, img, f);
        assert forall|x: B| img.contains(x) implies taken.contains(x) by {
            let a = choose|a: int| c.contains(a) && f(a) == x;
            assert(taken.contains(f(a)));
        }
        lemma_len_subset(img, taken);
        assert(false);
    }
}

/// Builds the service name with ordinal `k`.
pub fn make_service_name(k: u64) -> (r: String)
    ensures
        r@ == name_of_ordinal(k as nat),
{
    let mut s = String::from_str("safenode");
    push_dec(k, &mut s);
    s
}

/// Builds the data directory for a service name.
pub fn make_data_dir_path(name: &String) -> (r: String)
    ensures
        r@ == data_dir_of(name@),
{
    let mut s = String::from_str("/var/safenode-manager/services/");
    s.append(name.as_str());
    s
}

/// Builds the log directory for a service name.
pub fn make_log_dir_path(name: &String) -> (r: String)
    ensures
        r@ == log_dir_of(name@),
{
    let mut s = String::from_str("/var/log/safenode/");
    s.append(name.as_str());
    s
}

/// Builds the per-instance binary location for a service name.
pub fn make_binary_path(name: &String) -> (r: String)
    ensures
        r@ == binary_path_of(name@),
{
    let mut s = String::from_str("/var/safenode-manager/services/");
    s.append(name.as_str());
    s.append("/safenode");
    s
}

/// Whether some record or earlier descriptor already uses `name`.
pub fn name_in_use(reg: &Registry, descs: &Vec<InstanceDescriptor>, name: &String) -> (r: bool)
    ensures
        r == name_used(reg@, descs_model(descs@), name@),
{
    let mut i: usize = 0;
    while i < reg.records.len()
        invariant
            i <= reg@.len(),
            reg@.len() == reg.records@.len(),
            forall|j: int| 0 <= j < i ==> reg@[j].service_name != name@,
        decreases reg@.len() - i,
    {
        if reg.records[i].service_name == *name {
            proof {
                assert(reg@[i as int].service_name == name@);
            }
            return true;
        }
        i = i + 1;
    }
    let mut i: usize = 0;
    while i < descs.len()
        invariant
            i <= descs@.len(),
            forall|j: int| 0 <= j < i ==> descs_model(descs@)[j].service_name != name@,
        decreases descs@.len() - i,
    {
        if descs[i].service_name == *name {
            proof {
                assert(descs_model(descs@)[i as int].service_name == name@);
            }
            return true;
        }
        i = i + 1;
    }
    false
}

/// Whether some record or earlier descriptor already uses port `p`.
pub fn port_in_use(reg: &Registry, descs: &Vec<InstanceDescriptor>, p: u16) -> (r: bool)
    ensures
        r == port_used(reg@, descs_model(descs@), p),
{
    let mut i: usize = 0;
    while i < reg.records.len()
        invariant
            i <= reg@.len(),
            reg@.len() == reg.records@.len(),
            forall|j: int| 0 <= j < i ==> reg@[j].rpc_port != p,
        decreases reg@.len() - i,
    {
        if reg.records[i].rpc_port == p {
            proof {
                assert(reg@[i as int].rpc_port == p);
            }
            return true;
        }
        i = i + 1;
    }
    let mut i: usize = 0;
    while i < descs.len()
        invariant
            i <= descs@.len(),
            forall|j: int| 0 <= j < i ==> descs_model(descs@)[j].rpc_port != p,
        decreases descs@.len() - i,
    {
        if descs[i].rpc_port == p {
            proof {
                assert(descs_model(descs@)[i as int].rpc_port == p);
            }
            return true;
        }
        i = i + 1;
    }
    false
}

/// The smallest ordinal whose service name is not yet used, against the
/// registry and the descriptors allocated earlier in the same call.
pub fn next_free_ordinal(reg: &Registry, descs: &Vec<InstanceDescriptor>) -> (k: u64)
    requires
        reg@.len() + descs@.len() + 2 < u64::MAX,
    ensures
        1 <= k <= reg@.len() + descs@.len() + 1,
        !name_used(reg@, descs_model(descs@), name_of_ordinal(k as nat)),
        forall|j: nat|
            1 <= j < k ==> name_used(reg@, descs_model(descs@), #[trigger] name_of_ordinal(j)),
{
    let ghost rs = reg@;
    let ghost ds = descs_model(descs@);
    let ghost total = (rs.len() + ds.len()) as int;
    proof {
        broadcast use seq_to_set_is_finite;

        let all = rs.map_values(|m: RecordModel| m.service_name) + ds.map_values(
            |d: DescModel| d.service_name,
        );
        let taken = all.to_set();
        all.lemma_cardinality_of_set();
        let f = |i: int| name_of_ordinal((i + 1) as nat);
        assert forall|i: int, j: int|
            set_int_range(0, total + 1).contains(i) && set_int_range(0, total + 1).contains(j)
                && #[trigger] f(i) == #[trigger] f(j) implies i == j by {
            lemma_name_of_ordinal_injective((i + 1) as nat, (j + 1) as nat);
        }
        lemma_free_slot(taken, f, total);
        let k0 = choose|k0: int| 0 <= k0 <= total && !taken.contains(#[trigger] f(k0));
        assert forall|nm: Seq<char>| name_used(rs, ds, nm) implies taken.contains(nm) by {
            if exists|i: int| 0 <= i < rs.len() && rs[i].service_name == nm {
                let i = choose|i: int| 0 <= i < rs.len() && rs[i].service_name == nm;
                assert(all[i] == nm);
            } else {
                let i = choose|i: int| 0 <= i < ds.len() && ds[i].service_name == nm;
                assert(all[rs.len() + i] == nm);
            }
            assert(all.contains(nm));
        }
        assert(!name_used(rs, ds, name_of_ordinal((k0 + 1) as nat)));
    }
    let ghost k0 = choose|k0: int|
        0 <= k0 <= total && !name_used(rs, ds, #[trigger] name_of_ordinal((k0 + 1) as nat));
    let mut k: u64 = 1;
    loop
        invariant
            1 <= k,
            k as int <= k0 + 1,
            0 <= k0 <= total,
            rs == reg@,
            ds == descs_model(descs@),
            total == rs.len() + ds.len(),
            total + 2 < u64::MAX,
            !name_used(rs, ds, name_of_ordinal((k0 + 1) as nat)),
            forall|j: nat| 1 <= j < k ==> name_used(rs, ds, #[trigger] name_of_ordinal(j)),
        decreases total + 1 - k,
    {
        let nm = make_service_name(k);
        if !name_in_use(reg, descs, &nm) {
            return k;
        }
        proof {
            assert(k as int != k0 + 1);
        }
        k = k + 1;
    }
}

/// The smallest port at or above `PORT_BASE` not yet used, against the
/// registry and the descriptors allocated earlier in the same call.
pub fn next_free_port(reg: &Registry, descs: &Vec<InstanceDescriptor>) -> (p: u16)
    requires
        PORT_BASE as int + reg@.len() + descs@.len() < u16::MAX,
    ensures
        PORT_BASE <= p,
        p as int <= PORT_BASE as int + reg@.len() + descs@.len(),
        !port_used(reg@, descs_model(descs@), p),
        forall|q: u16| PORT_BASE <= q < p ==> port_used(reg@, descs_model(descs@), q),
{
    let ghost rs = reg@;
    let ghost ds = descs_model(descs@);
    let ghost total = (rs.len() + ds.len()) as int;
    proof {
        broadcast use seq_to_set_is_finite;

        let all = rs.map_values(|m: RecordModel| m.rpc_port as int) + ds.map_values(
            |d: DescModel| d.rpc_port as int,
        );
        let taken = all.to_set();
        all.lemma_cardinality_of_set();
        let f = |i: int| PORT_BASE as int + i;
        lemma_free_slot(taken, f, total);
        let k0 = choose|k0: int| 0 <= k0 <= total && !taken.contains(#[trigger] f(k0));
        assert forall|q: u16| port_used(rs, ds, q) implies taken.contains(q as int) by {
            if exists|i: int| 0 <= i < rs.len() && rs[i].rpc_port == q {
                let i = choose|i: int| 0 <= i < rs.len() && rs[i].rpc_port == q;
                assert(all[i] == q as int);
            } else {
                let i = choose|i: int| 0 <= i < ds.len() && ds[i].rpc_port == q;
                assert(all[rs.len() + i] == q as int);
            }
            assert(all.contains(q as int));
        }
        assert(!port_used(rs, ds, (PORT_BASE as int + k0) as u16));
    }
    let ghost k0 = choose|k0: int|
        0 <= k0 <= total && !(#[trigger] port_used(rs, ds, (PORT_BASE as int + k0) as u16));
    let mut p: u16 = PORT_BASE;
    loop
        invariant
            PORT_BASE <= p,
            p as int <= PORT_BASE as int + k0,
            0 <= k0 <= total,
            rs == reg@,
            ds == descs_model(descs@),
            total == rs.len() + ds.len(),
            PORT_BASE as int + total < u16::MAX,
            !port_used(rs, ds, (PORT_BASE as int + k0) as u16),
            forall|q: u16| PORT_BASE <= q < p ==> port_used(rs, ds, q),
        decreases PORT_BASE as int + total - p,
    {
        if !port_in_use(reg, descs, p) {
            return p;
        }
        proof {
            assert(p as int != PORT_BASE as int + k0);
        }
        p = p + 1;
    }
}

/// One allocation step is correct: the descriptor's name carries the
/// smallest ordinal unused against the registry and the descriptors
/// before it, its port is the smallest free port at or above
/// [`PORT_BASE`], and its paths are the ones its name determines.
pub open spec fn alloc_step_ok(rs: Seq<RecordModel>, prior: Seq<DescModel>, d: DescModel) -> bool {
    &&& exists|k: nat|
        1 <= k && d.service_name == #[trigger] name_of_ordinal(k) && !name_used(
            rs,
            prior,
            name_of_ordinal(k),
        ) && (forall|j: nat| 1 <= j < k ==> name_used(rs, prior, #[trigger] name_of_ordinal(j)))
    &&& PORT_BASE <= d.rpc_port
    &&& !port_used(rs, prior, d.rpc_port)
    &&& forall|q: u16| PORT_BASE <= q < d.rpc_port ==> port_used(rs, prior, q)
    &&& d.data_dir_path == data_dir_of(d.service_name)
    &&& d.log_dir_path == log_dir_of(d.service_name)
    &&& d.binary_path == binary_path_of(d.service_name)
}

/// Allocates `count` fresh instance descriptors against `existing`:
/// names with the smallest unused ordinals, the smallest free ports
/// scanning upward from [`PORT_BASE`], and paths derived from each name,
/// fresh against both the registry and the other descriptors of this
/// call. `user` and `version` are copied into every descriptor.
pub fn allocate(
    existing: &Registry,
    count: u16,
    user: &String,
    version: &String,
) -> (r: Vec<InstanceDescriptor>)
    requires
        PORT_BASE as int + existing@.len() + (count as int) < u16::MAX,
    ensures
        r@.len() == count as int,
        forall|i: int|
            0 <= i < count as int ==> alloc_step_ok(
                existing@,
                descs_model(r@).take(i),
                #[trigger] descs_model(r@)[i],
            ),
        forall|i: int|
            0 <= i < count as int ==> (#[trigger] descs_model(r@)[i]).user == user@
                && descs_model(r@)[i].version == version@,
{
    let mut out: Vec<InstanceDescriptor> = Vec::new();
    let mut c: u16 = 0;
    while c < count
        invariant
            c as int == out@.len(),
            c <= count,
            PORT_BASE as int + existing@.len() + (count as int) < u16::MAX,
            forall|i: int|
                0 <= i < c as int ==> alloc_step_ok(
                    existing@,
                    descs_model(out@).take(i),
                    #[trigger] descs_model(out@)[i],
                ),
            forall|i: int|
                0 <= i < c as int ==> (#[trigger] descs_model(out@)[i]).user == user@
                    && descs_model(out@)[i].version == version@,
        decreases count - c,
    {
        let k = next_free_ordinal(existing, &out);
        let p = next_free_port(existing, &out);
        let name = make_service_name(k);
        let data_dir = make_data_dir_path(&name);
        let log_dir = make_log_dir_path(&name);
        let binary = make_binary_path(&name);
        let desc = InstanceDescriptor {
            service_name: name,
            rpc_port: p,
            version: version.clone(),
            user: user.clone(),
            binary_path: binary,
            data_dir_path: data_dir,
            log_dir_path: log_dir,
        };
        proof {
            let ghost prior = descs_model(out@);
            assert(descs_model(out@.push(desc)) =~= prior.push(desc.model()));
            assert(descs_model(out@.push(desc)).take(out@.len() as int) =~= prior);
            assert(desc.model().service_name == name_of_ordinal(k as nat));
            assert(alloc_step_ok(existing@, prior, desc.model()));
            assert(forall|i: int|
                0 <= i < out@.len() ==> descs_model(out@.push(desc)).take(i)
                    =~= descs_model(out@).take(i));
        }
        out.push(desc);
        c = c + 1;
    }
    out
}

} // verus!
