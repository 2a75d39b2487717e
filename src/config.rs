use vstd::prelude::*;

verus! {

/// A remote machine to open a shell on.
#[derive(Clone, Debug)]
pub struct Host {
    pub name: String,
    pub host: String,
    pub user: String,
    pub port: u16,
    pub key_path: Option<String>,
}

/// A named, coloured collection of hosts. The group named `All` stands for
/// the hosts of every other group.
#[derive(Clone, Debug)]
pub struct Group {
    pub name: String,
    pub color: String,
    pub hosts: Vec<Host>,
}

/// A private key file; at most one key is marked as the default.
#[derive(Clone, Debug)]
pub struct SshKey {
    pub name: String,
    pub path: String,
    pub is_default: bool,
}

/// The stored connection records: groups of hosts and keys.
#[derive(Clone, Debug)]
pub struct Config {
    pub groups: Vec<Group>,
    pub keys: Vec<SshKey>,
}

/// Why a change to the records was refused.
#[derive(Clone, Debug)]
pub enum ConfigError {
    /// The `All` group holds no hosts of its own.
    AllGroupIsVirtual,
    /// No group has the given name.
    GroupNotFound(String),
}

/// Whether `g` is the `All` group.
pub open spec fn is_all_group(g: Group) -> bool {
    g.name@ == "All"@
}

/// Whether the first group is the `All` group.
pub open spec fn starts_with_all(gs: Seq<Group>) -> bool {
    gs.len() > 0 && is_all_group(gs[0])
}

/// The hosts of `gs`, group after group.
pub open spec fn hosts_of(gs: Seq<Group>) -> Seq<Host>
    decreases gs.len(),
{
    if gs.len() == 0 { Seq::empty() } else { hosts_of(gs.drop_last()) + gs.last().hosts@ }
}

/// `i` is the first index of a group named `name`.
pub open spec fn first_named(gs: Seq<Group>, name: Seq<char>, i: int) -> bool {
    &&& 0 <= i < gs.len()
    &&& gs[i].name@ == name
    &&& forall|j: int| 0 <= j < i ==> (#[trigger] gs[j]).name@ != name
}

pub open spec fn has_group_named(gs: Seq<Group>, name: Seq<char>) -> bool {
    exists|i: int| 0 <= i < gs.len() && (#[trigger] gs[i]).name@ == name
}

/// `i` is the first index of a default key.
pub open spec fn first_default(ks: Seq<SshKey>, i: int) -> bool {
    &&& 0 <= i < ks.len()
    &&& ks[i].is_default
    &&& forall|j: int| 0 <= j < i ==> !(#[trigger] ks[j]).is_default
}

/// `after` is `before` with the hosts of group `i` changed to `hosts`.
pub open spec fn hosts_replaced(before: Seq<Group>, after: Seq<Group>, i: int, hosts: Seq<Host>) -> bool {
    &&& after.len() == before.len()
    &&& forall|j: int| 0 <= j < before.len() && j != i ==> #[trigger] after[j] == before[j]
    &&& after[i].name == before[i].name
    &&& after[i].color == before[i].color
    &&& after[i].hosts@ == hosts
}

fn text_eq(s: &String, t: &str) -> (r: bool)
    ensures
        r == (s@ == t@),
{
    let owned = String::from_str(t);
    s.eq(&owned)
}

fn str_eq(s: &str, t: &str) -> (r: bool)
    ensures
        r == (s@ == t@),
{
    let owned = String::from_str(s);
    text_eq(&owned, t)
}

fn group_is_all(g: &Group) -> (r: bool)
    ensures
        r == is_all_group(*g),
{
    text_eq(&g.name, "All")
}

impl Host {
    /// A field-by-field copy.
    pub fn duplicate(&self) -> (r: Host)
        ensures
            r == *self,
    {
        let key_path = match &self.key_path {
            Some(p) => Some(p.clone()),
            None => None,
        };
        Host { name: self.name.clone(), host: self.host.clone(), user: self.user.clone(), port: self.port, key_path }
    }
}

impl SshKey {
    /// A field-by-field copy.
    pub fn duplicate(&self) -> (r: SshKey)
        ensures
            r == *self,
    {
        SshKey { name: self.name.clone(), path: self.path.clone(), is_default: self.is_default }
    }
}

/// Copies of `hosts`, in order.
fn copy_hosts(hosts: &Vec<Host>) -> (r: Vec<Host>)
    ensures
        r@ == hosts@,
{
    let mut out: Vec<Host> = Vec::new();
    let mut i: usize = 0;
    while i < hosts.len()
        invariant
            i <= hosts@.len(),
            out@ == hosts@.subrange(0, i as int),
        decreases hosts@.len() - i,
    {
        out.push(hosts[i].duplicate());
        i = i + 1;
        assert(out@ =~= hosts@.subrange(0, i as int));
    }
    assert(hosts@.subrange(0, hosts@.len() as int) =~= hosts@);
    out
}

impl Config {
    /// A group named `All` with no hosts of its own.
    fn all_group() -> (r: Group)
        ensures
            r.name@ == "All"@,
            r.color@ == "blue"@,
            r.hosts@.len() == 0,
    {
        Group { name: String::from_str("All"), color: String::from_str("blue"), hosts: Vec::new() }
    }

    /// Puts an `All` group first unless the first group already is one.
    pub fn ensure_all_group(&mut self)
        ensures
            final(self).keys == old(self).keys,
            starts_with_all(old(self).groups@) ==> final(self).groups@ == old(self).groups@,
            !starts_with_all(old(self).groups@) ==> {
                &&& final(self).groups@.len() == old(self).groups@.len() + 1
                &&& final(self).groups@.drop_first() == old(self).groups@
                &&& final(self).groups@[0].name@ == "All"@
                &&& final(self).groups@[0].color@ == "blue"@
                &&& final(self).groups@[0].hosts@.len() == 0
            },
    {
        if self.groups.len() == 0 || !group_is_all(&self.groups[0]) {
            let g = Config::all_group();
            self.groups.insert(0, g);
            assert(self.groups@.drop_first() =~= old(self).groups@);
        }
    }

    /// The hosts shown for group `group_index`: none past the end; for the
    /// `All` group in first place, the hosts of every other group in order;
    /// otherwise the group's own hosts.
    pub fn get_hosts_for_group(&self, group_index: usize) -> (r: Vec<Host>)
        ensures
            r@ == (if group_index >= self.groups@.len() {
                Seq::empty()
            } else if group_index == 0 && is_all_group(self.groups@[0]) {
                hosts_of(self.groups@.drop_first())
            } else {
                self.groups@[group_index as int].hosts@
            }),
    {
        if group_index >= self.groups.len() {
            return Vec::new();
        }
        if group_index == 0 && group_is_all(&self.groups[0]) {
            let ghost rest = self.groups@.drop_first();
            let mut all: Vec<Host> = Vec::new();
            let mut i: usize = 1;
            assert(rest.subrange(0, 0) =~= Seq::<Group>::empty());
            while i < self.groups.len()
                invariant
                    1 <= i <= self.groups@.len(),
                    rest == self.groups@.drop_first(),
                    all@ == hosts_of(rest.subrange(0, i - 1)),
                decreases self.groups@.len() - i,
            {
                let hs = copy_hosts(&self.groups[i].hosts);
                let mut k: usize = 0;
                let ghost base = all@;
                while k < hs.len()
                    invariant
                        k <= hs@.len(),
                        all@ == base + hs@.subrange(0, k as int),
                    decreases hs@.len() - k,
                {
                    all.push(hs[k].duplicate());
                    k = k + 1;
                    assert(all@ =~= base + hs@.subrange(0, k as int));
                }
                assert(hs@.subrange(0, hs@.len() as int) =~= hs@);
                assert(rest.subrange(0, i as int).drop_last() =~= rest.subrange(0, i - 1));
                i = i + 1;
            }
            assert(rest.subrange(0, rest.len() as int) =~= rest);
            all
        } else {
            copy_hosts(&self.groups[group_index].hosts)
        }
    }

    /// Appends `key`; a new default key takes the mark from every other key.
    pub fn add_key(&mut self, key: SshKey)
        ensures
            final(self).groups == old(self).groups,
            final(self).keys@.len() == old(self).keys@.len() + 1,
            final(self).keys@.last() == key,
            forall|i: int| 0 <= i < old(self).keys@.len() ==> {
                let k = #[trigger] final(self).keys@[i];
                let o = old(self).keys@[i];
                &&& k.name == o.name
                &&& k.path == o.path
                &&& k.is_default == (o.is_default && !key.is_default)
            },
    {
        if key.is_default {
            let mut i: usize = 0;
            while i < self.keys.len()
                invariant
                    i <= self.keys@.len(),
                    self.groups == old(self).groups,
                    self.keys@.len() == old(self).keys@.len(),
                    forall|j: int| 0 <= j < self.keys@.len() ==> {
                        let k = #[trigger] self.keys@[j];
                        let o = old(self).keys@[j];
                        &&& k.name == o.name
                        &&& k.path == o.path
                        &&& k.is_default == (o.is_default && j >= i)
                    },
                decreases self.keys@.len() - i,
            {
                self.keys[i].is_default = false;
                i = i + 1;
            }
        }
        self.keys.push(key);
    }

    /// Adds `group` just after a leading `All` group, or at the end.
    pub fn add_group(&mut self, group: Group)
        ensures
            final(self).keys == old(self).keys,
            final(self).groups@ == (if starts_with_all(old(self).groups@) {
                old(self).groups@.insert(1, group)
            } else {
                old(self).groups@.push(group)
            }),
    {
        if self.groups.len() > 0 && group_is_all(&self.groups[0]) {
            self.groups.insert(1, group);
        } else {
            self.groups.push(group);
        }
    }

    /// The index of the first group named `name`.
    fn find_group(&self, name: &str) -> (r: Option<usize>)
        ensures
            r matches Some(i) ==> first_named(self.groups@, name@, i as int),
            r is None ==> !has_group_named(self.groups@, name@),
    {
        let mut i: usize = 0;
        while i < self.groups.len()
            invariant
                i <= self.groups@.len(),
                forall|j: int| 0 <= j < i ==> (#[trigger] self.groups@[j]).name@ != name@,
            decreases self.groups@.len() - i,
        {
            if text_eq(&self.groups[i].name, name) {
                return Some(i);
            }
            i = i + 1;
        }
        None
    }

    /// Appends `host` to the first group named `group_name`. Refused for
    /// `All` and for a name no group has.
    pub fn add_host_to_group(&mut self, group_name: &str, host: Host) -> (r: Result<(), ConfigError>)
        ensures
            final(self).keys == old(self).keys,
            group_name@ == "All"@ ==> r matches Err(ConfigError::AllGroupIsVirtual),
            group_name@ != "All"@ && !has_group_named(old(self).groups@, group_name@) ==> (r matches Err(
                ConfigError::GroupNotFound(n),
            ) && n@ == group_name@),
            r is Err ==> final(self).groups == old(self).groups,
            r is Ok <==> group_name@ != "All"@ && has_group_named(old(self).groups@, group_name@),
            r is Ok ==> exists|i: int|
                first_named(old(self).groups@, group_name@, i) && hosts_replaced(
                    old(self).groups@,
                    final(self).groups@,
                    i,
                    old(self).groups@[i].hosts@.push(host),
                ),
    {
        if str_eq(group_name, "All") {
            return Err(ConfigError::AllGroupIsVirtual);
        }
        match self.find_group(group_name) {
            None => Err(ConfigError::GroupNotFound(String::from_str(group_name))),
            Some(i) => {
                self.groups[i].hosts.push(host);
                assert(hosts_replaced(old(self).groups@, self.groups@, i as int, old(self).groups@[i as int].hosts@.push(host)));
                Ok(())
            },
        }
    }

    /// The first key marked as default, if any.
    pub fn get_default_key(&self) -> (r: Option<&SshKey>)
        ensures
            r matches Some(k) ==> exists|i: int| first_default(self.keys@, i) && *k == self.keys@[i],
            r is None ==> forall|i: int| 0 <= i < self.keys@.len() ==> !(#[trigger] self.keys@[i]).is_default,
    {
        let mut i: usize = 0;
        while i < self.keys.len()
            invariant
                i <= self.keys@.len(),
                forall|j: int| 0 <= j < i ==> !(#[trigger] self.keys@[j]).is_default,
            decreases self.keys@.len() - i,
        {
            if self.keys[i].is_default {
                assert(first_default(self.keys@, i as int));
                return Some(&self.keys[i]);
            }
            i = i + 1;
        }
        None
    }

    /// Removes every key named `name`.
    pub fn remove_key(&mut self, name: &str)
        ensures
            final(self).groups == old(self).groups,
            final(self).keys@ == old(self).keys@.filter(|k: SshKey| k.name@ != name@),
    {
        let ghost pred = |k: SshKey| k.name@ != name@;
        let mut kept: Vec<SshKey> = Vec::new();
        let mut i: usize = 0;
        proof {
            reveal(Seq::filter);
            assert(self.keys@.subrange(0, 0) =~= Seq::<SshKey>::empty());
        }
        while i < self.keys.len()
            invariant
                i <= self.keys@.len(),
                kept@ == self.keys@.subrange(0, i as int).filter(pred),
                pred == (|k: SshKey| k.name@ != name@),
            decreases self.keys@.len() - i,
        {
            proof {
                reveal(Seq::filter);
                assert(self.keys@.subrange(0, i + 1).drop_last() =~= self.keys@.subrange(0, i as int));
            }
            if !text_eq(&self.keys[i].name, name) {
                kept.push(self.keys[i].duplicate());
            }
            i = i + 1;
        }
        assert(self.keys@.subrange(0, self.keys@.len() as int) =~= self.keys@);
        self.keys = kept;
    }

    /// Removes every group named `name`; the `All` group is never removed.
    pub fn remove_group(&mut self, name: &str)
        ensures
            final(self).keys == old(self).keys,
            final(self).groups@ == (if name@ == "All"@ {
                old(self).groups@
            } else {
                old(self).groups@.filter(|g: Group| g.name@ != name@)
            }),
    {
        if str_eq(name, "All") {
            return;
        }
        let ghost pred = |g: Group| g.name@ != name@;
        let mut kept: Vec<Group> = Vec::new();
        let mut rest: Vec<Group> = Vec::new();
        std::mem::swap(&mut rest, &mut self.groups);
        let ghost all = rest@;
        assert(all.len() == rest.len());
        proof {
            reveal(Seq::filter);
            assert(all.subrange(0, 0) =~= Seq::<Group>::empty());
        }
        let mut i: usize = 0;
        while rest.len() > 0
            invariant
                rest@ == all.subrange(i as int, all.len() as int),
                i <= all.len(),
                all.len() <= usize::MAX,
                kept@ == all.subrange(0, i as int).filter(pred),
                pred == (|g: Group| g.name@ != name@),
            decreases rest@.len(),
        {
            let g = rest.remove(0);
            proof {
                reveal(Seq::filter);
                assert(all.subrange(0, i + 1).drop_last() =~= all.subrange(0, i as int));
            }
            if !text_eq(&g.name, name) {
                kept.push(g);
            }
            i = i + 1;
            assert(rest@ =~= all.subrange(i as int, all.len() as int));
        }
        assert(all.subrange(0, all.len() as int) =~= all);
        self.groups = kept;
    }

    /// Removes every host named `host_name` from the first group named
    /// `group_name`. Refused for `All` and for a name no group has.
    pub fn remove_host(&mut self, group_name: &str, host_name: &str) -> (r: Result<(), ConfigError>)
        ensures
            final(self).keys == old(self).keys,
            group_name@ == "All"@ ==> r matches Err(ConfigError::AllGroupIsVirtual),
            group_name@ != "All"@ && !has_group_named(old(self).groups@, group_name@) ==> (r matches Err(
                ConfigError::GroupNotFound(n),
            ) && n@ == group_name@),
            r is Err ==> final(self).groups == old(self).groups,
            r is Ok <==> group_name@ != "All"@ && has_group_named(old(self).groups@, group_name@),
            r is Ok ==> exists|i: int|
                first_named(old(self).groups@, group_name@, i) && hosts_replaced(
                    old(self).groups@,
                    final(self).groups@,
                    i,
                    old(self).groups@[i].hosts@.filter(|h: Host| h.name@ != host_name@),
                ),
    {
        if str_eq(group_name, "All") {
            return Err(ConfigError::AllGroupIsVirtual);
        }
        match self.find_group(group_name) {
            None => Err(ConfigError::GroupNotFound(String::from_str(group_name))),
            Some(gi) => {
                let ghost pred = |h: Host| h.name@ != host_name@;
                let ghost hosts = self.groups@[gi as int].hosts@;
                let mut kept: Vec<Host> = Vec::new();
                let mut i: usize = 0;
                proof {
                    reveal(Seq::filter);
                    assert(hosts.subrange(0, 0) =~= Seq::<Host>::empty());
                }
                while i < self.groups[gi].hosts.len()
                    invariant
                        gi < self.groups@.len(),
                        self.groups == old(self).groups,
                        hosts == self.groups@[gi as int].hosts@,
                        i <= hosts.len(),
                        kept@ == hosts.subrange(0, i as int).filter(pred),
                        pred == (|h: Host| h.name@ != host_name@),
                    decreases hosts.len() - i,
                {
                    proof {
                        reveal(Seq::filter);
                        assert(hosts.subrange(0, i + 1).drop_last() =~= hosts.subrange(0, i as int));
                    }
                    if !text_eq(&self.groups[gi].hosts[i].name, host_name) {
                        kept.push(self.groups[gi].hosts[i].duplicate());
                    }
                    i = i + 1;
                }
                assert(hosts.subrange(0, hosts.len() as int) =~= hosts);
                self.groups[gi].hosts = kept;
                assert(hosts_replaced(old(self).groups@, self.groups@, gi as int, hosts.filter(pred)));
                Ok(())
            },
        }
    }

    /// The key file to connect to `host` with: the host's own, else the
    /// default key's, else none.
    pub fn key_path_for(&self, host: &Host) -> (r: Option<String>)
        ensures
            host.key_path is Some ==> r == host.key_path,
            host.key_path is None ==> (r matches Some(p) ==> exists|i: int|
                first_default(self.keys@, i) && p == self.keys@[i].path),
            host.key_path is None ==> (r is None <==> forall|i: int|
                0 <= i < self.keys@.len() ==> !(#[trigger] self.keys@[i]).is_default),
    {
        match &host.key_path {
            Some(p) => Some(p.clone()),
            None => match self.get_default_key() {
                Some(k) => Some(k.path.clone()),
                None => None,
            },
        }
    }
}

impl Default for Config {
    /// An `All` group (blue) followed by an empty `Default` group (green), and no keys.
    fn default() -> (r: Config)
        ensures
            r.groups@.len() == 2,
            r.groups@[0].name@ == "All"@,
            r.groups@[0].color@ == "blue"@,
            r.groups@[0].hosts@.len() == 0,
            r.groups@[1].name@ == "Default"@,
            r.groups@[1].color@ == "green"@,
            r.groups@[1].hosts@.len() == 0,
            r.keys@.len() == 0,
    {
        let all = Config::all_group();
        let default_group = Group {
            name: String::from_str("Default"),
            color: String::from_str("green"),
            hosts: Vec::new(),
        };
        let mut groups: Vec<Group> = Vec::new();
        groups.push(all);
        groups.push(default_group);
        Config { groups, keys: Vec::new() }
    }
}

} // verus!
