//! The aggregated interface state and the connectivity derived from it.

use vstd::prelude::*;

verus! {

/// The address family of an IP address.
#[derive(PartialEq, Eq, Structural, Clone, Copy, Debug)]
pub enum IpFamily {
    V4,
    V6,
}

/// Represents connectivity to the internet.
#[derive(PartialEq, Eq, Structural, Clone, Copy, Debug)]
pub enum InternetConnectivity {
    Disconnected,
    IpV4,
    IpV6,
    All,
}

/// What is known of one address family on one interface.
pub struct IpModel {
    pub addresses: Set<Seq<u8>>,
    pub gateways: Set<(Seq<u8>, u32)>,
}

/// What is known of one interface.
pub struct InterfaceModel {
    pub up: bool,
    pub ipv4: IpModel,
    pub ipv6: IpModel,
}

impl IpModel {
    pub open spec fn empty() -> IpModel {
        IpModel { addresses: Set::empty(), gateways: Set::empty() }
    }

    /// Both an address and a default gateway are known.
    pub open spec fn usable(self) -> bool {
        &&& self.addresses !== Set::<Seq<u8>>::empty()
        &&& self.gateways !== Set::<(Seq<u8>, u32)>::empty()
    }
}

impl InterfaceModel {
    pub open spec fn fresh(up: bool) -> InterfaceModel {
        InterfaceModel { up, ipv4: IpModel::empty(), ipv6: IpModel::empty() }
    }

    pub open spec fn family(self, f: IpFamily) -> IpModel {
        match f {
            IpFamily::V4 => self.ipv4,
            IpFamily::V6 => self.ipv6,
        }
    }

    pub open spec fn with_family(self, f: IpFamily, m: IpModel) -> InterfaceModel {
        match f {
            IpFamily::V4 => InterfaceModel { ipv4: m, ..self },
            IpFamily::V6 => InterfaceModel { ipv6: m, ..self },
        }
    }

    /// The interface is up and has an address and a default gateway of family `f`.
    pub open spec fn reaches(self, f: IpFamily) -> bool {
        self.up && self.family(f).usable()
    }
}

/// Some interface of `m` reaches family `f`.
pub open spec fn reaches_any(m: Map<u32, InterfaceModel>, f: IpFamily) -> bool {
    exists|k: u32| #[trigger] m.contains_key(k) && m[k].reaches(f)
}

pub open spec fn classify(v4: bool, v6: bool) -> InternetConnectivity {
    if v4 && v6 {
        InternetConnectivity::All
    } else if v4 {
        InternetConnectivity::IpV4
    } else if v6 {
        InternetConnectivity::IpV6
    } else {
        InternetConnectivity::Disconnected
    }
}

/// The connectivity of a state: a function of the current records alone.
pub open spec fn connectivity_of(m: Map<u32, InterfaceModel>) -> InternetConnectivity {
    classify(reaches_any(m, IpFamily::V4), reaches_any(m, IpFamily::V6))
}

/// Compares two byte strings.
fn bytes_eq(a: &Vec<u8>, b: &Vec<u8>) -> (r: bool)
    ensures
        r == (a@ == b@),
{
    if a.len() != b.len() {
        return false;
    }
    let mut i: usize = 0;
    while i < a.len()
        invariant
            a@.len() == b@.len(),
            i <= a@.len(),
            forall|j: int| 0 <= j < i ==> a@[j] == b@[j],
        decreases a@.len() - i,
    {
        if a[i] != b[i] {
            return false;
        }
        i = i + 1;
    }
    assert(a@ =~= b@);
    true
}

/// Copies a byte string.
pub(crate) fn copy_bytes(b: &Vec<u8>) -> (r: Vec<u8>)
    ensures
        r@ == b@,
{
    let r = b.clone();
    assert(r@ =~= b@);
    r
}

/// A default gateway: its address and the route's priority.
struct Gateway {
    address: Vec<u8>,
    priority: u32,
}

impl Gateway {
    spec fn key(&self) -> (Seq<u8>, u32) {
        (self.address@, self.priority)
    }
}

/// Addresses and default gateways of one family, each kept once.
struct IpState {
    addresses: Vec<Vec<u8>>,
    gateways: Vec<Gateway>,
}

spec fn address_set(s: Seq<Vec<u8>>) -> Set<Seq<u8>> {
    Set::new(|a: Seq<u8>| exists|i: int| 0 <= i < s.len() && #[trigger] s[i]@ == a)
}

spec fn gateway_set(s: Seq<Gateway>) -> Set<(Seq<u8>, u32)> {
    Set::new(|g: (Seq<u8>, u32)| exists|i: int| 0 <= i < s.len() && #[trigger] s[i].key() == g)
}

impl IpState {
    spec fn model(&self) -> IpModel {
        IpModel { addresses: address_set(self.addresses@), gateways: gateway_set(self.gateways@) }
    }

    fn new() -> (r: IpState)
        ensures
            r.model() == IpModel::empty(),
    {
        let r = IpState { addresses: Vec::new(), gateways: Vec::new() };
        assert(address_set(r.addresses@) =~= Set::empty());
        assert(gateway_set(r.gateways@) =~= Set::empty());
        r
    }

    fn usable(&self) -> (r: bool)
        ensures
            r == self.model().usable(),
    {
        if self.addresses.len() == 0 {
            assert(address_set(self.addresses@) =~= Set::empty());
            false
        } else if self.gateways.len() == 0 {
            assert(gateway_set(self.gateways@) =~= Set::empty());
            false
        } else {
            assert(address_set(self.addresses@).contains(self.addresses@[0]@));
            assert(gateway_set(self.gateways@).contains(self.gateways@[0].key()));
            true
        }
    }

    fn has_address(&self, a: &Vec<u8>) -> (r: bool)
        ensures
            r == self.model().addresses.contains(a@),
    {
        let mut i: usize = 0;
        while i < self.addresses.len()
            invariant
                i <= self.addresses@.len(),
                forall|j: int| 0 <= j < i ==> self.addresses@[j]@ != a@,
            decreases self.addresses@.len() - i,
        {
            if bytes_eq(&self.addresses[i], a) {
                return true;
            }
            i = i + 1;
        }
        false
    }

    fn has_gateway(&self, g: &Gateway) -> (r: bool)
        ensures
            r == self.model().gateways.contains(g.key()),
    {
        let mut i: usize = 0;
        while i < self.gateways.len()
            invariant
                i <= self.gateways@.len(),
                forall|j: int| 0 <= j < i ==> self.gateways@[j].key() != g.key(),
            decreases self.gateways@.len() - i,
        {
            if self.gateways[i].priority == g.priority && bytes_eq(&self.gateways[i].address, &g.address) {
                assert(self.gateways@[i as int].key() == g.key());
                assert(gateway_set(self.gateways@).contains(self.gateways@[i as int].key()));
                return true;
            }
            i = i + 1;
        }
        false
    }

    fn insert_address(&mut self, a: Vec<u8>)
        ensures
            final(self).model() == (IpModel {
                addresses: old(self).model().addresses.insert(a@),
                ..old(self).model()
            }),
    {
        if !self.has_address(&a) {
            let ghost before = self.addresses@;
            self.addresses.push(a);
            assert(address_set(self.addresses@) =~= address_set(before).insert(self.addresses@.last()@)) by {
                assert forall|x: Seq<u8>| address_set(before).contains(x) implies #[trigger] address_set(self.addresses@).contains(x) by {
                    let i = choose|i: int| 0 <= i < before.len() && before[i]@ == x;
                    assert(self.addresses@[i] == before[i]);
                }
                assert(address_set(self.addresses@).contains(self.addresses@.last()@));
            }
        } else {
            assert(old(self).model().addresses.insert(a@) =~= old(self).model().addresses);
        }
    }

    fn insert_gateway(&mut self, g: Gateway)
        ensures
            final(self).model() == (IpModel {
                gateways: old(self).model().gateways.insert(g.key()),
                ..old(self).model()
            }),
    {
        if !self.has_gateway(&g) {
            let ghost before = self.gateways@;
            let ghost k = g.key();
            self.gateways.push(g);
            assert(gateway_set(self.gateways@) =~= gateway_set(before).insert(k)) by {
                assert forall|x: (Seq<u8>, u32)| gateway_set(before).contains(x) implies #[trigger] gateway_set(self.gateways@).contains(x) by {
                    let i = choose|i: int| 0 <= i < before.len() && before[i].key() == x;
                    assert(self.gateways@[i] == before[i]);
                }
                assert(self.gateways@[before.len() as int].key() == k);
                assert(gateway_set(self.gateways@).contains(k));
            }
        } else {
            assert(old(self).model().gateways.insert(g.key()) =~= old(self).model().gateways);
        }
    }

    fn remove_address(&mut self, a: &Vec<u8>)
        ensures
            final(self).model() == (IpModel {
                addresses: old(self).model().addresses.remove(a@),
                ..old(self).model()
            }),
    {
        let ghost target = old(self).model().addresses.remove(a@);
        let mut rest: Vec<Vec<u8>> = Vec::new();
        std::mem::swap(&mut self.addresses, &mut rest);
        let mut kept: Vec<Vec<u8>> = Vec::new();
        assert(address_set(kept@) =~= Set::empty());
        assert(address_set(kept@).union(address_set(rest@)).remove(a@) =~= target);
        while rest.len() > 0
            invariant
                !address_set(kept@).contains(a@),
                address_set(kept@).union(address_set(rest@)).remove(a@) == target,
            decreases rest@.len(),
        {
            let ghost r0 = rest@;
            let x = rest.pop().unwrap();
            proof {
                lemma_address_set_push(rest@, x);
            }
            assert(r0 == rest@.push(x));
            if !bytes_eq(&x, a) {
                let ghost k0 = kept@;
                kept.push(x);
                proof {
                    lemma_address_set_push(k0, x);
                }
            }
            assert(address_set(kept@).union(address_set(rest@)).remove(a@) =~= target);
        }
        assert(address_set(rest@) =~= Set::empty());
        assert(address_set(kept@) =~= target);
        self.addresses = kept;
    }

    fn remove_gateway(&mut self, address: &Vec<u8>, priority: u32)
        ensures
            final(self).model() == (IpModel {
                gateways: old(self).model().gateways.remove((address@, priority)),
                ..old(self).model()
            }),
    {
        let ghost target = old(self).model().gateways.remove((address@, priority));
        let mut rest: Vec<Gateway> = Vec::new();
        std::mem::swap(&mut self.gateways, &mut rest);
        let mut kept: Vec<Gateway> = Vec::new();
        assert(gateway_set(kept@) =~= Set::empty());
        assert(gateway_set(kept@).union(gateway_set(rest@)).remove((address@, priority)) =~= target);
        while rest.len() > 0
            invariant
                !gateway_set(kept@).contains((address@, priority)),
                gateway_set(kept@).union(gateway_set(rest@)).remove((address@, priority)) == target,
            decreases rest@.len(),
        {
            let ghost r0 = rest@;
            let x = rest.pop().unwrap();
            proof {
                lemma_gateway_set_push(rest@, x);
            }
            assert(r0 == rest@.push(x));
            if !(x.priority == priority && bytes_eq(&x.address, address)) {
                let ghost k0 = kept@;
                kept.push(x);
                proof {
                    lemma_gateway_set_push(k0, x);
                }
            }
            assert(gateway_set(kept@).union(gateway_set(rest@)).remove((address@, priority)) =~= target);
        }
        assert(gateway_set(rest@) =~= Set::empty());
        assert(gateway_set(kept@) =~= target);
        self.gateways = kept;
    }
}

proof fn lemma_address_set_push(s: Seq<Vec<u8>>, x: Vec<u8>)
    ensures
        address_set(s.push(x)) == address_set(s).insert(x@),
{
    let t = s.push(x);
    assert forall|a: Seq<u8>| address_set(s).contains(a) implies #[trigger] address_set(t).contains(a) by {
        let i = choose|i: int| 0 <= i < s.len() && s[i]@ == a;
        assert(t[i] == s[i]);
    }
    assert forall|a: Seq<u8>| address_set(t).contains(a) implies #[trigger] address_set(s).insert(x@).contains(a) by {
        let i = choose|i: int| 0 <= i < t.len() && t[i]@ == a;
        if i < s.len() {
            assert(t[i] == s[i]);
        }
    }
    assert(address_set(t).contains(t[s.len() as int]@));
    assert(address_set(t) =~= address_set(s).insert(x@));
}

proof fn lemma_gateway_set_push(s: Seq<Gateway>, x: Gateway)
    ensures
        gateway_set(s.push(x)) == gateway_set(s).insert(x.key()),
{
    let t = s.push(x);
    assert forall|g: (Seq<u8>, u32)| gateway_set(s).contains(g) implies #[trigger] gateway_set(t).contains(g) by {
        let i = choose|i: int| 0 <= i < s.len() && s[i].key() == g;
        assert(t[i] == s[i]);
    }
    assert forall|g: (Seq<u8>, u32)| gateway_set(t).contains(g) implies #[trigger] gateway_set(s).insert(x.key()).contains(g) by {
        let i = choose|i: int| 0 <= i < t.len() && t[i].key() == g;
        if i < s.len() {
            assert(t[i] == s[i]);
        }
    }
    assert(gateway_set(t).contains(t[s.len() as int].key()));
    assert(gateway_set(t) =~= gateway_set(s).insert(x.key()));
}

impl InterfaceModel {
    pub open spec fn add_address(self, f: IpFamily, a: Seq<u8>) -> InterfaceModel {
        self.with_family(f, IpModel { addresses: self.family(f).addresses.insert(a), ..self.family(f) })
    }

    pub open spec fn remove_address(self, f: IpFamily, a: Seq<u8>) -> InterfaceModel {
        self.with_family(f, IpModel { addresses: self.family(f).addresses.remove(a), ..self.family(f) })
    }

    pub open spec fn add_gateway(self, f: IpFamily, g: (Seq<u8>, u32)) -> InterfaceModel {
        self.with_family(f, IpModel { gateways: self.family(f).gateways.insert(g), ..self.family(f) })
    }

    pub open spec fn remove_gateway(self, f: IpFamily, g: (Seq<u8>, u32)) -> InterfaceModel {
        self.with_family(f, IpModel { gateways: self.family(f).gateways.remove(g), ..self.family(f) })
    }
}

/// The record of `index`, or the one that an event on an unseen index creates.
pub open spec fn record_or_fresh(m: Map<u32, InterfaceModel>, index: u32) -> InterfaceModel {
    if m.contains_key(index) {
        m[index]
    } else {
        InterfaceModel::fresh(false)
    }
}

pub open spec fn link_added(m: Map<u32, InterfaceModel>, index: u32, loopback: bool, up: bool) -> Map<
    u32,
    InterfaceModel,
> {
    if loopback {
        m
    } else {
        m.insert(index, InterfaceModel { up, ..record_or_fresh(m, index) })
    }
}

pub open spec fn link_removed(m: Map<u32, InterfaceModel>, index: u32, loopback: bool) -> Map<
    u32,
    InterfaceModel,
> {
    if loopback {
        m
    } else {
        m.remove(index)
    }
}

pub open spec fn address_added(m: Map<u32, InterfaceModel>, index: u32, f: IpFamily, a: Seq<u8>) -> Map<
    u32,
    InterfaceModel,
> {
    m.insert(index, record_or_fresh(m, index).add_address(f, a))
}

pub open spec fn address_removed(m: Map<u32, InterfaceModel>, index: u32, f: IpFamily, a: Seq<u8>) -> Map<
    u32,
    InterfaceModel,
> {
    if m.contains_key(index) {
        m.insert(index, m[index].remove_address(f, a))
    } else {
        m
    }
}

pub open spec fn route_added(
    m: Map<u32, InterfaceModel>,
    index: u32,
    f: IpFamily,
    g: (Seq<u8>, u32),
) -> Map<u32, InterfaceModel> {
    m.insert(index, record_or_fresh(m, index).add_gateway(f, g))
}

pub open spec fn route_removed(
    m: Map<u32, InterfaceModel>,
    index: u32,
    f: IpFamily,
    g: (Seq<u8>, u32),
) -> Map<u32, InterfaceModel> {
    if m.contains_key(index) {
        m.insert(index, m[index].remove_gateway(f, g))
    } else {
        m
    }
}

/// The complete state of one interface.
struct InterfaceState {
    index: u32,
    up: bool,
    ipv4: IpState,
    ipv6: IpState,
}

impl InterfaceState {
    spec fn model(&self) -> InterfaceModel {
        InterfaceModel { up: self.up, ipv4: self.ipv4.model(), ipv6: self.ipv6.model() }
    }

    fn new(index: u32, up: bool) -> (r: InterfaceState)
        ensures
            r.index == index,
            r.model() == InterfaceModel::fresh(up),
    {
        InterfaceState { index, up, ipv4: IpState::new(), ipv6: IpState::new() }
    }

    fn reaches(&self, f: IpFamily) -> (r: bool)
        ensures
            r == self.model().reaches(f),
    {
        self.up && match f {
            IpFamily::V4 => self.ipv4.usable(),
            IpFamily::V6 => self.ipv6.usable(),
        }
    }

    fn add_address(&mut self, f: IpFamily, a: Vec<u8>)
        ensures
            final(self).index == old(self).index,
            final(self).model() == old(self).model().add_address(f, a@),
    {
        match f {
            IpFamily::V4 => self.ipv4.insert_address(a),
            IpFamily::V6 => self.ipv6.insert_address(a),
        }
    }

    fn remove_address(&mut self, f: IpFamily, a: &Vec<u8>)
        ensures
            final(self).index == old(self).index,
            final(self).model() == old(self).model().remove_address(f, a@),
    {
        match f {
            IpFamily::V4 => self.ipv4.remove_address(a),
            IpFamily::V6 => self.ipv6.remove_address(a),
        }
    }

    fn add_gateway(&mut self, f: IpFamily, g: Gateway)
        ensures
            final(self).index == old(self).index,
            final(self).model() == old(self).model().add_gateway(f, g.key()),
    {
        match f {
            IpFamily::V4 => self.ipv4.insert_gateway(g),
            IpFamily::V6 => self.ipv6.insert_gateway(g),
        }
    }

    fn remove_gateway(&mut self, f: IpFamily, address: &Vec<u8>, priority: u32)
        ensures
            final(self).index == old(self).index,
            final(self).model() == old(self).model().remove_gateway(f, (address@, priority)),
    {
        match f {
            IpFamily::V4 => self.ipv4.remove_gateway(address, priority),
            IpFamily::V6 => self.ipv6.remove_gateway(address, priority),
        }
    }
}

spec fn unique(s: Seq<InterfaceState>) -> bool {
    forall|i: int, j: int|
        0 <= i < s.len() && 0 <= j < s.len() && #[trigger] s[i].index == #[trigger] s[j].index ==> i == j
}

spec fn records_view(s: Seq<InterfaceState>) -> Map<u32, InterfaceModel> {
    Map::new(
        |k: u32| exists|i: int| 0 <= i < s.len() && #[trigger] s[i].index == k,
        |k: u32| s[choose|i: int| 0 <= i < s.len() && #[trigger] s[i].index == k].model(),
    )
}

proof fn lemma_records_view(s: Seq<InterfaceState>)
    requires
        unique(s),
    ensures
        forall|i: int|
            0 <= i < s.len() ==> #[trigger] records_view(s).contains_key(s[i].index)
                && records_view(s)[s[i].index] == s[i].model(),
        forall|k: u32|
            #[trigger] records_view(s).contains_key(k) ==> exists|i: int|
                0 <= i < s.len() && #[trigger] s[i].index == k,
{
    assert forall|i: int| 0 <= i < s.len() implies #[trigger] records_view(s).contains_key(s[i].index)
        && records_view(s)[s[i].index] == s[i].model() by {
        let k = s[i].index;
        assert(exists|j: int| 0 <= j < s.len() && #[trigger] s[j].index == k);
        let j = choose|j: int| 0 <= j < s.len() && #[trigger] s[j].index == k;
        assert(s[j].index == s[i].index);
    }
}

proof fn lemma_update(s: Seq<InterfaceState>, i: int, r: InterfaceState)
    requires
        unique(s),
        0 <= i < s.len(),
        r.index == s[i].index,
    ensures
        unique(s.update(i, r)),
        records_view(s.update(i, r)) == records_view(s).insert(r.index, r.model()),
{
    let t = s.update(i, r);
    assert forall|a: int, b: int|
        0 <= a < t.len() && 0 <= b < t.len() && #[trigger] t[a].index == #[trigger] t[b].index implies a == b by {
        assert(s[a].index == t[a].index);
        assert(s[b].index == t[b].index);
    }
    lemma_records_view(s);
    lemma_records_view(t);
    let m = records_view(s).insert(r.index, r.model());
    assert forall|k: u32| #[trigger] m.contains_key(k) implies records_view(t).contains_key(k) && records_view(t)[k] == m[k] by {
        if k != r.index {
            let j = choose|j: int| 0 <= j < s.len() && #[trigger] s[j].index == k;
            assert(t[j] == s[j]);
        } else {
            assert(t[i] == r);
        }
    }
    assert forall|k: u32| #[trigger] records_view(t).contains_key(k) implies m.contains_key(k) by {
        let j = choose|j: int| 0 <= j < t.len() && #[trigger] t[j].index == k;
        assert(s[j].index == t[j].index);
    }
    assert(records_view(t) =~= m);
}

proof fn lemma_push(s: Seq<InterfaceState>, r: InterfaceState)
    requires
        unique(s),
        forall|i: int| 0 <= i < s.len() ==> s[i].index != r.index,
    ensures
        unique(s.push(r)),
        records_view(s.push(r)) == records_view(s).insert(r.index, r.model()),
{
    let t = s.push(r);
    assert forall|a: int, b: int|
        0 <= a < t.len() && 0 <= b < t.len() && #[trigger] t[a].index == #[trigger] t[b].index implies a == b by {
        if a < s.len() {
            assert(t[a] == s[a]);
        }
        if b < s.len() {
            assert(t[b] == s[b]);
        }
    }
    lemma_records_view(s);
    lemma_records_view(t);
    let m = records_view(s).insert(r.index, r.model());
    assert forall|k: u32| #[trigger] m.contains_key(k) implies records_view(t).contains_key(k) && records_view(t)[k] == m[k] by {
        if k != r.index {
            let j = choose|j: int| 0 <= j < s.len() && #[trigger] s[j].index == k;
            assert(t[j] == s[j]);
        } else {
            assert(t[s.len() as int] == r);
        }
    }
    assert forall|k: u32| #[trigger] records_view(t).contains_key(k) implies m.contains_key(k) by {
        let j = choose|j: int| 0 <= j < t.len() && #[trigger] t[j].index == k;
        if j < s.len() {
            assert(t[j] == s[j]);
        }
    }
    assert(records_view(t) =~= m);
}

proof fn lemma_remove(s: Seq<InterfaceState>, i: int)
    requires
        unique(s),
        0 <= i < s.len(),
    ensures
        unique(s.remove(i)),
        records_view(s.remove(i)) == records_view(s).remove(s[i].index),
{
    let t = s.remove(i);
    assert forall|a: int, b: int|
        0 <= a < t.len() && 0 <= b < t.len() && #[trigger] t[a].index == #[trigger] t[b].index implies a == b by {
        let a2 = if a < i { a } else { a + 1 };
        let b2 = if b < i { b } else { b + 1 };
        assert(t[a] == s[a2]);
        assert(t[b] == s[b2]);
    }
    lemma_records_view(s);
    lemma_records_view(t);
    let m = records_view(s).remove(s[i].index);
    assert forall|k: u32| #[trigger] m.contains_key(k) implies records_view(t).contains_key(k) && records_view(t)[k] == m[k] by {
        let j = choose|j: int| 0 <= j < s.len() && #[trigger] s[j].index == k;
        assert(j != i);
        let j2 = if j < i { j } else { j - 1 };
        assert(t[j2] == s[j]);
    }
    assert forall|k: u32| #[trigger] records_view(t).contains_key(k) implies m.contains_key(k) by {
        let j = choose|j: int| 0 <= j < t.len() && #[trigger] t[j].index == k;
        let j2 = if j < i { j } else { j + 1 };
        assert(t[j] == s[j2]);
    }
    assert(records_view(t) =~= m);
}

/// Maps each interface index to the state of that interface.
///
/// A record is created down and empty by the first event on an unseen index;
/// loopback links are never recorded.
pub struct InterfacesState {
    interfaces: Vec<InterfaceState>,
}

impl View for InterfacesState {
    type V = Map<u32, InterfaceModel>;

    closed spec fn view(&self) -> Map<u32, InterfaceModel> {
        records_view(self.interfaces@)
    }
}

impl InterfacesState {
    /// Each index has at most one record.
    pub closed spec fn wf(&self) -> bool {
        unique(self.interfaces@)
    }

    /// An empty state: no interface is known.
    pub fn new() -> (r: InterfacesState)
        ensures
            r.wf(),
            r@ == Map::<u32, InterfaceModel>::empty(),
    {
        let r = InterfacesState { interfaces: Vec::new() };
        assert(records_view(r.interfaces@) =~= Map::empty());
        r
    }

    fn find(&self, index: u32) -> (r: Option<usize>)
        requires
            self.wf(),
        ensures
            match r {
                Some(i) => i < self.interfaces@.len() && self.interfaces@[i as int].index == index
                    && self@.contains_key(index) && self@[index] == self.interfaces@[i as int].model(),
                None => !self@.contains_key(index) && forall|i: int|
                    0 <= i < self.interfaces@.len() ==> self.interfaces@[i].index != index,
            },
    {
        proof {
            lemma_records_view(self.interfaces@);
        }
        let mut i: usize = 0;
        while i < self.interfaces.len()
            invariant
                self.wf(),
                i <= self.interfaces@.len(),
                forall|j: int| 0 <= j < i ==> self.interfaces@[j].index != index,
            decreases self.interfaces@.len() - i,
        {
            if self.interfaces[i].index == index {
                proof {
                    lemma_records_view(self.interfaces@);
                    assert(records_view(self.interfaces@).contains_key(self.interfaces@[i as int].index));
                }
                return Some(i);
            }
            i = i + 1;
        }
        None
    }

    /// The position of the record of `index`, created down and empty if there was none.
    fn slot(&mut self, index: u32) -> (i: usize)
        requires
            old(self).wf(),
        ensures
            final(self).wf(),
            i < final(self).interfaces@.len(),
            final(self).interfaces@[i as int].index == index,
            final(self).interfaces@[i as int].model() == record_or_fresh(old(self)@, index),
            final(self)@ == old(self)@.insert(index, record_or_fresh(old(self)@, index)),
    {
        match self.find(index) {
            Some(i) => {
                assert(old(self)@.insert(index, old(self)@[index]) =~= old(self)@);
                i
            },
            None => {
                let r = InterfaceState::new(index, false);
                proof {
                    lemma_push(self.interfaces@, r);
                }
                self.interfaces.push(r);
                self.interfaces.len() - 1
            },
        }
    }

    /// Records a link, unless it is a loopback link.
    pub fn add_link(&mut self, index: u32, loopback: bool, up: bool)
        requires
            old(self).wf(),
        ensures
            final(self).wf(),
            final(self)@ == link_added(old(self)@, index, loopback, up),
    {
        if !loopback {
            let i = self.slot(index);
            let ghost s0 = self.interfaces@;
            self.interfaces[i].up = up;
            proof {
                lemma_update(s0, i as int, self.interfaces@[i as int]);
                assert(self@ =~= link_added(old(self)@, index, loopback, up));
            }
        }
    }

    /// Forgets a link with all its addresses and gateways, unless it is a loopback link.
    pub fn remove_link(&mut self, index: u32, loopback: bool)
        requires
            old(self).wf(),
        ensures
            final(self).wf(),
            final(self)@ == link_removed(old(self)@, index, loopback),
    {
        if !loopback {
            match self.find(index) {
                Some(i) => {
                    proof {
                        lemma_remove(self.interfaces@, i as int);
                    }
                    self.interfaces.remove(i);
                },
                None => {
                    assert(old(self)@.remove(index) =~= old(self)@);
                },
            }
        }
    }

    /// Records an address of an interface.
    pub fn add_address(&mut self, index: u32, family: IpFamily, address: Vec<u8>)
        requires
            old(self).wf(),
        ensures
            final(self).wf(),
            final(self)@ == address_added(old(self)@, index, family, address@),
    {
        let ghost a = address@;
        let i = self.slot(index);
        let ghost s0 = self.interfaces@;
        self.interfaces[i].add_address(family, address);
        proof {
            lemma_update(s0, i as int, self.interfaces@[i as int]);
            assert(self@ =~= address_added(old(self)@, index, family, a));
        }
    }

    /// Forgets an address of an interface; nothing happens where either is unknown.
    pub fn remove_address(&mut self, index: u32, family: IpFamily, address: &Vec<u8>)
        requires
            old(self).wf(),
        ensures
            final(self).wf(),
            final(self)@ == address_removed(old(self)@, index, family, address@),
    {
        match self.find(index) {
            Some(i) => {
                let ghost s0 = self.interfaces@;
                self.interfaces[i].remove_address(family, address);
                proof {
                    lemma_update(s0, i as int, self.interfaces@[i as int]);
                }
            },
            None => {},
        }
    }

    /// Records a default route of an interface: its gateway and priority.
    pub fn add_default_route(&mut self, index: u32, family: IpFamily, gateway: Vec<u8>, priority: u32)
        requires
            old(self).wf(),
        ensures
            final(self).wf(),
            final(self)@ == route_added(old(self)@, index, family, (gateway@, priority)),
    {
        let ghost g = (gateway@, priority);
        let i = self.slot(index);
        let ghost s0 = self.interfaces@;
        self.interfaces[i].add_gateway(family, Gateway { address: gateway, priority });
        proof {
            lemma_update(s0, i as int, self.interfaces@[i as int]);
            assert(self@ =~= route_added(old(self)@, index, family, g));
        }
    }

    /// Forgets a default route of an interface; nothing happens where either is unknown.
    pub fn remove_default_route(&mut self, index: u32, family: IpFamily, gateway: &Vec<u8>, priority: u32)
        requires
            old(self).wf(),
        ensures
            final(self).wf(),
            final(self)@ == route_removed(old(self)@, index, family, (gateway@, priority)),
    {
        match self.find(index) {
            Some(i) => {
                let ghost s0 = self.interfaces@;
                self.interfaces[i].remove_gateway(family, gateway, priority);
                proof {
                    lemma_update(s0, i as int, self.interfaces@[i as int]);
                }
            },
            None => {},
        }
    }

    /// The connectivity of the current state.
    pub fn internet_connectivity(&self) -> (r: InternetConnectivity)
        requires
            self.wf(),
        ensures
            r == connectivity_of(self@),
    {
        let mut v4 = false;
        let mut v6 = false;
        let mut i: usize = 0;
        while i < self.interfaces.len()
            invariant
                i <= self.interfaces@.len(),
                v4 == exists|j: int| 0 <= j < i && (#[trigger] self.interfaces@[j]).model().reaches(IpFamily::V4),
                v6 == exists|j: int| 0 <= j < i && (#[trigger] self.interfaces@[j]).model().reaches(IpFamily::V6),
            decreases self.interfaces@.len() - i,
        {
            if self.interfaces[i].reaches(IpFamily::V4) {
                v4 = true;
            }
            if self.interfaces[i].reaches(IpFamily::V6) {
                v6 = true;
            }
            i = i + 1;
        }
        proof {
            lemma_reaches_any(self.interfaces@, IpFamily::V4);
            lemma_reaches_any(self.interfaces@, IpFamily::V6);
        }
        if v4 && v6 {
            InternetConnectivity::All
        } else if v4 {
            InternetConnectivity::IpV4
        } else if v6 {
            InternetConnectivity::IpV6
        } else {
            InternetConnectivity::Disconnected
        }
    }
}

proof fn lemma_reaches_any(s: Seq<InterfaceState>, f: IpFamily)
    requires
        unique(s),
    ensures
        reaches_any(records_view(s), f) == exists|j: int| 0 <= j < s.len() && (#[trigger] s[j]).model().reaches(f),
{
    lemma_records_view(s);
    let m = records_view(s);
    if exists|j: int| 0 <= j < s.len() && (#[trigger] s[j]).model().reaches(f) {
        let j = choose|j: int| 0 <= j < s.len() && (#[trigger] s[j]).model().reaches(f);
        assert(m.contains_key(s[j].index));
    }
    if reaches_any(m, f) {
        let k = choose|k: u32| #[trigger] m.contains_key(k) && m[k].reaches(f);
        let j = choose|j: int| 0 <= j < s.len() && #[trigger] s[j].index == k;
        assert(m.contains_key(s[j].index));
    }
}

/// Connectivity is a function of the records alone: two states that hold the
/// same records have the same connectivity, whatever events built each of them.
pub proof fn lemma_connectivity_of_records(a: &InterfacesState, b: &InterfacesState)
    requires
        a@ == b@,
    ensures
        connectivity_of(a@) == connectivity_of(b@),
{
}

/// Recording an address and recording a default route give the same records in
/// either order, so the connectivity does not depend on that order either.
pub proof fn lemma_address_and_route_commute(
    m: Map<u32, InterfaceModel>,
    a_index: u32,
    a_family: IpFamily,
    a: Seq<u8>,
    g_index: u32,
    g_family: IpFamily,
    g: (Seq<u8>, u32),
)
    ensures
        address_added(route_added(m, g_index, g_family, g), a_index, a_family, a)
            == route_added(address_added(m, a_index, a_family, a), g_index, g_family, g),
        connectivity_of(address_added(route_added(m, g_index, g_family, g), a_index, a_family, a))
            == connectivity_of(route_added(address_added(m, a_index, a_family, a), g_index, g_family, g)),
{
    let x = address_added(route_added(m, g_index, g_family, g), a_index, a_family, a);
    let y = route_added(address_added(m, a_index, a_family, a), g_index, g_family, g);
    if a_index == g_index {
        let r = record_or_fresh(m, a_index);
        assert(r.add_gateway(g_family, g).add_address(a_family, a) == r.add_address(a_family, a).add_gateway(
            g_family,
            g,
        ));
    }
    assert(x =~= y);
}

/// A loopback link changes nothing: neither the records, nor the connectivity,
/// nor the set of known indices.
pub proof fn lemma_loopback_link_ignored(m: Map<u32, InterfaceModel>, index: u32, up: bool)
    ensures
        link_added(m, index, true, up) == m,
        link_removed(m, index, true) == m,
        connectivity_of(link_added(m, index, true, up)) == connectivity_of(m),
        !m.contains_key(index) ==> !link_added(m, index, true, up).contains_key(index),
{
}

/// Connectivity is `All` exactly when some interface reaches IPv4 and some,
/// possibly other, interface reaches IPv6.
pub proof fn lemma_all_iff_both_families(m: Map<u32, InterfaceModel>)
    ensures
        (connectivity_of(m) == InternetConnectivity::All) <==> ((exists|k: u32|
            #[trigger] m.contains_key(k) && m[k].reaches(IpFamily::V4)) && (exists|k: u32|
            #[trigger] m.contains_key(k) && m[k].reaches(IpFamily::V6))),
{
}

} // verus!
