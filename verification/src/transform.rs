//! The transformations applied to each pod's file before it is handed to
//! `docker-compose`: labels naming the target and pod, dropping `build`
//! sections, default image tags, a host entry for the Docker host, and the
//! environment that gives services their Vault tokens.

use vstd::prelude::*;

use crate::compose::{label_text, File, HostMapping, Service};
use crate::default_tags::{image_parts, read_image, DefaultTags};
use crate::errors::Error;
use crate::strmap::{has_key, lookup, StrMap};
use crate::compose::VolumeMount;
use crate::paths::{join_path, path_join};
use crate::text::{concat2, concat3, copy_str, copy_strings, find_char, first_index_of, is_prefix, starts_with, str_eq, suffix_from};

verus! {

/// What kind of transform operation are we performing?
#[derive(Debug, Clone, Copy, PartialEq, Eq, Structural)]
pub enum Operation {
    /// We're outputting a file for local development.
    Output,
    /// We're exporting a file for use by another tool.
    Export,
}

/// `new` holds the services of `old`, in the same order, each related to
/// the old one by `rel`.
pub open spec fn each_service(
    old: Seq<(Seq<char>, Service)>,
    new: Seq<(Seq<char>, Service)>,
    rel: spec_fn(Seq<char>, Service, Service) -> bool,
) -> bool {
    &&& new.len() == old.len()
    &&& forall|i: int| 0 <= i < old.len() ==> (#[trigger] new[i]).0 == old[i].0 && rel(old[i].0, old[i].1, new[i].1)
}

/// `new` is `old` with the labels `io.fdy.cage.target` and `io.fdy.cage.pod`
/// set, and nothing else changed.
pub open spec fn labelled(old: Service, new: Service, target: Seq<char>, pod: Seq<char>) -> bool {
    &&& forall|k: Seq<char>| #[trigger] label_text(new.labels@, k) == if k == "io.fdy.cage.target"@ {
        Some(target)
    } else if k == "io.fdy.cage.pod"@ {
        Some(pod)
    } else {
        label_text(old.labels@, k)
    }
    &&& new.image == old.image && new.build == old.build && new.env_files == old.env_files
    &&& new.environment == old.environment && new.volumes == old.volumes && new.ports == old.ports
    &&& new.extra_hosts == old.extra_hosts
}

/// Label every service with the target and pod it runs for, so that
/// `docker ps --filter` can find them.
pub fn add_labels(file: &mut File, target: &str, pod: &str)
    ensures
        each_service(old(file).services@, final(file).services@, |_n: Seq<char>, o: Service, s: Service| labelled(o, s, target@, pod@)),
{
    let ghost start = file.services@;
    let n = file.services.len();
    let mut i: usize = 0;
    proof {
        reveal_strlit("io.fdy.cage.target");
        reveal_strlit("io.fdy.cage.pod");
        assert("io.fdy.cage.target"@.len() != "io.fdy.cage.pod"@.len());
    }
    while i < n
        invariant
            n == start.len(),
            i <= n,
            file.services@.len() == n,
            "io.fdy.cage.target"@ != "io.fdy.cage.pod"@,
            forall|j: int| 0 <= j < i ==> (#[trigger] file.services@[j]).0 == start[j].0 && labelled(start[j].1, file.services@[j].1, target@, pod@),
            forall|j: int| i <= j < n ==> #[trigger] file.services@[j] == start[j],
        decreases n - i,
    {
        let mut svc = file.services.replace_value_at(i, Service::empty());
        let ghost before = svc;
        let ghost l0 = svc.labels@;
        svc.labels.insert(copy_str("io.fdy.cage.target"), copy_str(target));
        let ghost l1 = svc.labels@;
        svc.labels.insert(copy_str("io.fdy.cage.pod"), copy_str(pod));
        assert forall|k: Seq<char>| #[trigger] label_text(svc.labels@, k) == if k == "io.fdy.cage.target"@ {
            Some(target@)
        } else if k == "io.fdy.cage.pod"@ {
            Some(pod@)
        } else {
            label_text(l0, k)
        } by {
            if k != "io.fdy.cage.pod"@ {
                assert(lookup(svc.labels@, k) == lookup(l1, k));
            }
            if k != "io.fdy.cage.target"@ && k != "io.fdy.cage.pod"@ {
                assert(lookup(l1, k) == lookup(l0, k));
            }
        }
        let _ = file.services.replace_value_at(i, svc);
        i = i + 1;
    }
}

/// `new` is `old` without its `build` section.
pub open spec fn unbuilt(old: Service, new: Service) -> bool {
    &&& new.build is None
    &&& new.image == old.image && new.labels == old.labels && new.env_files == old.env_files
    &&& new.environment == old.environment && new.volumes == old.volumes && new.ports == old.ports
    &&& new.extra_hosts == old.extra_hosts
}

/// Drop every service's `build` section unless the command is `build`, so
/// that other commands use the images as built.
pub fn remove_build(file: &mut File, subcommand: &str)
    ensures
        subcommand@ == "build"@ ==> final(file).services@ == old(file).services@,
        subcommand@ != "build"@ ==> each_service(old(file).services@, final(file).services@, |_n: Seq<char>, o: Service, s: Service| unbuilt(o, s)),
{
    if str_eq(subcommand, "build") {
        return;
    }
    let ghost start = file.services@;
    let n = file.services.len();
    let mut i: usize = 0;
    while i < n
        invariant
            n == start.len(),
            i <= n,
            file.services@.len() == n,
            forall|j: int| 0 <= j < i ==> (#[trigger] file.services@[j]).0 == start[j].0 && unbuilt(start[j].1, file.services@[j].1),
            forall|j: int| i <= j < n ==> #[trigger] file.services@[j] == start[j],
        decreases n - i,
    {
        let mut svc = file.services.replace_value_at(i, Service::empty());
        svc.build = None;
        let _ = file.services.replace_value_at(i, svc);
        i = i + 1;
    }
}

/// `new` is `old` with its image given its default tag from `tags`.
pub open spec fn defaulted(old: Service, new: Service, tags: Map<Seq<char>, Seq<char>>) -> bool {
    &&& match old.image {
        None => new.image is None,
        Some(img) => match image_parts(img@) {
            Some(p) => new.image matches Some(ni) && ni@ == if !p.2 && tags.contains_key(p.0) {
                tags[p.0]
            } else {
                p.0
            },
            None => false,
        },
    }
    &&& new.build == old.build && new.labels == old.labels && new.env_files == old.env_files
    &&& new.environment == old.environment && new.volumes == old.volumes && new.ports == old.ports
    &&& new.extra_hosts == old.extra_hosts
}

/// Every image of the services can be read.
pub open spec fn images_readable(services: Seq<(Seq<char>, Service)>) -> bool {
    forall|i: int| 0 <= i < services.len() ==> ((#[trigger] services[i]).1.image matches Some(img) ==> image_parts(img@) is Some)
}

/// Give every service's image its default tag, if the project has default
/// tags.  An image that cannot be read is an error.
pub fn apply_default_tags(file: &mut File, tags: Option<&DefaultTags>) -> (r: Result<(), Error>)
    ensures
        tags is None ==> r is Ok && final(file).services@ == old(file).services@,
        tags is Some ==> (r is Ok <==> images_readable(old(file).services@)),
        tags is Some && r is Ok ==> each_service(
            old(file).services@,
            final(file).services@,
            |_n: Seq<char>, o: Service, s: Service| defaulted(o, s, tags->0.tags_view()),
        ),
{
    let t = match tags {
        Some(t) => t,
        None => {
            return Ok(());
        },
    };
    let ghost start = file.services@;
    let n = file.services.len();
    let mut i: usize = 0;
    while i < n
        invariant
            n == start.len(),
            i <= n,
            file.services@.len() == n,
            start == old(file).services@,
            tags == Some(t),
            forall|j: int| 0 <= j < i ==> ((#[trigger] start[j]).1.image matches Some(img) ==> image_parts(img@) is Some),
            forall|j: int| 0 <= j < i ==> (#[trigger] file.services@[j]).0 == start[j].0 && defaulted(start[j].1, file.services@[j].1, t.tags_view()),
            forall|j: int| i <= j < n ==> #[trigger] file.services@[j] == start[j],
        decreases n - i,
    {
        let mut svc = file.services.replace_value_at(i, Service::empty());
        assert(svc == start[i as int].1);
        let new_image = match &svc.image {
            None => None,
            Some(img) => match read_image(img.as_str()) {
                Ok(parsed) => Some(t.default_for(&parsed)),
                Err(e) => {
                    let _ = file.services.replace_value_at(i, svc);
                    return Err(e);
                },
            },
        };
        svc.image = new_image;
        let _ = file.services.replace_value_at(i, svc);
        i = i + 1;
    }
    Ok(())
}

/// A volume's host side, as written, that is a path relative to the home
/// directory (`~/...`).
pub open spec fn home_relative(h: Seq<char>) -> bool {
    is_prefix("~/"@, h)
}

/// A volume's host side, as written, that is a path relative to the pods
/// directory: not absolute, not under the home directory, and either
/// starting with `.` or holding a `/` (a bare word names a volume).
pub open spec fn pods_relative(h: Seq<char>) -> bool {
    &&& !is_prefix("/"@, h)
    &&& !home_relative(h)
    &&& (is_prefix("."@, h) || first_index_of(h, '/') is Some)
}

/// The host side of a volume once made absolute: `pods_dir` and `home`
/// are absolute.
pub open spec fn absolute_host(h: Seq<char>, pods_dir: Seq<char>, home: Seq<char>) -> Seq<char> {
    if home_relative(h) {
        path_join(home, h.skip(2))
    } else if pods_relative(h) {
        path_join(pods_dir, h)
    } else {
        h
    }
}

/// Does some volume of the services have a host side under the home
/// directory?
pub open spec fn uses_home(services: Seq<(Seq<char>, Service)>) -> bool {
    exists|i: int, j: int| 0 <= i < services.len() && 0 <= j < services[i].1.volumes@.len()
        && under_home(#[trigger] services[i].1.volumes@[j])
}

/// Is the host side of this volume under the home directory?
pub open spec fn under_home(v: VolumeMount) -> bool {
    v.host matches Some(h) && home_relative(h@)
}

/// `new` is `old` with each volume's host side made absolute.
pub open spec fn absolutized(old: Service, new: Service, pods_dir: Seq<char>, home: Seq<char>) -> bool {
    &&& new.volumes@.len() == old.volumes@.len()
    &&& forall|j: int| 0 <= j < old.volumes@.len() ==> {
        &&& (#[trigger] new.volumes@[j]).container@ == old.volumes@[j].container@
        &&& match old.volumes@[j].host {
            Some(h) => new.volumes@[j].host matches Some(n) && n@ == absolute_host(h@, pods_dir, home),
            None => new.volumes@[j].host is None,
        }
    }
    &&& new.image == old.image && new.build == old.build && new.labels == old.labels && new.env_files == old.env_files
    &&& new.environment == old.environment && new.ports == old.ports && new.extra_hosts == old.extra_hosts
}

/// The host side of a volume, made absolute.
fn absolute_host_of(h: &str, pods_dir: &str, home: &str) -> (r: String)
    ensures
        r@ == absolute_host(h@, pods_dir@, home@),
{
    proof {
        reveal_strlit("~/");
        reveal_strlit("/");
        reveal_strlit(".");
    }
    if starts_with(h, "~/") {
        let rest = suffix_from(h, 2);
        assert(rest@ =~= h@.skip(2));
        join_path(home, rest.as_str())
    } else if !starts_with(h, "/") && (starts_with(h, ".") || find_char(h, '/').is_some()) {
        join_path(pods_dir, h)
    } else {
        copy_str(h)
    }
}

/// Make the host side of every volume absolute, when writing output:
/// `./x`, `../x` and `x/y` are relative to the pods directory, `~/x` to the
/// home directory, if there is one (without one, such a volume is an
/// error); absolute paths and named volumes stay as they are.
pub fn absolute_volumes(file: &mut File, op: Operation, pods_dir: &str, home: Option<&str>) -> (r: Result<(), Error>)
    ensures
        op != Operation::Output ==> r is Ok && final(file).services@ == old(file).services@,
        op == Operation::Output && home is None && uses_home(old(file).services@) ==> (r matches Err(e) && (e matches Error::Message(
            m,
        ) && m@ == "Cannot find HOME directory"@)),
        op == Operation::Output && !(home is None && uses_home(old(file).services@)) ==> r is Ok && each_service(
            old(file).services@,
            final(file).services@,
            |_n: Seq<char>, o: Service, s: Service| absolutized(o, s, pods_dir@, match home {
                Some(h) => h@,
                None => Seq::empty(),
            }),
        ),
{
    if op != Operation::Output {
        return Ok(());
    }
    let ghost start = file.services@;
    let home_dir: &str = match home {
        Some(h) => h,
        None => "",
    };
    proof {
        reveal_strlit("");
        reveal_strlit("~/");
    }
    assert(home_dir@ == match home {
        Some(h) => h@,
        None => Seq::<char>::empty(),
    });
    if home.is_none() {
        let n = file.services.len();
        let mut i: usize = 0;
        while i < n
            invariant
                n == start.len(),
                start == file.services@,
                start == old(file).services@,
                op == Operation::Output,
                home is None,
                i <= n,
                forall|a: int, b: int| 0 <= a < i && 0 <= b < start[a].1.volumes@.len() ==> !under_home(#[trigger] start[a].1.volumes@[b]),
            decreases n - i,
        {
            let (_, svc) = file.services.entry(i);
            let mut j: usize = 0;
            while j < svc.volumes.len()
                invariant
                    n == start.len(),
                    start == file.services@,
                    start == old(file).services@,
                    op == Operation::Output,
                    home is None,
                    i < n,
                    *svc == start[i as int].1,
                    j <= svc.volumes@.len(),
                    forall|a: int, b: int| 0 <= a < i && 0 <= b < start[a].1.volumes@.len() ==> !under_home(#[trigger] start[a].1.volumes@[b]),
                    forall|b: int| 0 <= b < j ==> !under_home(#[trigger] svc.volumes@[b]),
                decreases svc.volumes@.len() - j,
            {
                if let Some(h) = &svc.volumes[j].host {
                    if starts_with(h.as_str(), "~/") {
                        assert(under_home(start[i as int].1.volumes@[j as int]));
                        return Err(Error::Message(copy_str("Cannot find HOME directory")));
                    }
                }
                j = j + 1;
            }
            i = i + 1;
        }
        assert(!uses_home(start));
    }
    let n = file.services.len();
    let mut i: usize = 0;
    while i < n
        invariant
            n == start.len(),
            i <= n,
            file.services@.len() == n,
            home_dir@ == match home {
                Some(h) => h@,
                None => Seq::<char>::empty(),
            },
            forall|j: int| 0 <= j < i ==> (#[trigger] file.services@[j]).0 == start[j].0 && absolutized(start[j].1, file.services@[j].1, pods_dir@, home_dir@),
            forall|j: int| i <= j < n ==> #[trigger] file.services@[j] == start[j],
        decreases n - i,
    {
        let mut svc = file.services.replace_value_at(i, Service::empty());
        let ghost before = svc;
        let mut vols: Vec<VolumeMount> = Vec::new();
        let mut j: usize = 0;
        while j < svc.volumes.len()
            invariant
                j <= svc.volumes@.len(),
                vols@.len() == j,
                forall|b: int| 0 <= b < j ==> {
                    &&& (#[trigger] vols@[b]).container@ == svc.volumes@[b].container@
                    &&& match svc.volumes@[b].host {
                        Some(h) => vols@[b].host matches Some(n) && n@ == absolute_host(h@, pods_dir@, home_dir@),
                        None => vols@[b].host is None,
                    }
                },
            decreases svc.volumes@.len() - j,
        {
            let v = &svc.volumes[j];
            let host = match &v.host {
                Some(h) => Some(absolute_host_of(h.as_str(), pods_dir, home_dir)),
                None => None,
            };
            vols.push(VolumeMount { host, container: copy_str(v.container.as_str()) });
            j = j + 1;
        }
        svc.volumes = vols;
        assert(absolutized(before, svc, pods_dir@, home_dir@));
        let _ = file.services.replace_value_at(i, svc);
        i = i + 1;
    }
    Ok(())
}

/// An address of a network interface.
#[derive(Debug, Clone)]
pub struct AddressInfo {
    /// The address family: `inet`, `inet6`, ...
    pub family: Option<String>,
    /// The address.
    pub local: Option<String>,
}

/// A network interface, as `ip -j address show` describes it.
#[derive(Debug, Clone)]
pub struct InterfaceInfo {
    /// The name of the interface, if any.
    pub ifname: Option<String>,
    /// The addresses of the interface.
    pub addr_info: Vec<AddressInfo>,
}

/// Is this an IPv4 address with a value?
pub open spec fn ipv4_at(a: AddressInfo) -> bool {
    (a.family matches Some(f) && f@ == "inet"@) && a.local is Some
}

impl InterfaceInfo {
    /// The first IPv4 address of this interface.
    pub fn ipv4_address(&self) -> (r: Option<String>)
        ensures
            match r {
                Some(s) => exists|i: int| 0 <= i < self.addr_info@.len() && ipv4_at(#[trigger] self.addr_info@[i])
                    && self.addr_info@[i].local->0@ == s@ && forall|j: int| 0 <= j < i ==> !ipv4_at(#[trigger] self.addr_info@[j]),
                None => forall|i: int| 0 <= i < self.addr_info@.len() ==> !ipv4_at(#[trigger] self.addr_info@[i]),
            },
            match r {
                Some(s) => self.ipv4_address_spec() == Some(s@),
                None => self.ipv4_address_spec() is None,
            },
    {
        let mut i: usize = 0;
        while i < self.addr_info.len()
            invariant
                i <= self.addr_info@.len(),
                forall|j: int| 0 <= j < i ==> !ipv4_at(#[trigger] self.addr_info@[j]),
            decreases self.addr_info@.len() - i,
        {
            let a = &self.addr_info[i];
            if let Some(family) = &a.family {
                if str_eq(family.as_str(), "inet") {
                    if let Some(local) = &a.local {
                        assert(ipv4_at(self.addr_info@[i as int]));
                        proof {
                            let c = choose|c: int| 0 <= c < self.addr_info@.len() && ipv4_at(#[trigger] self.addr_info@[c])
                                && forall|j: int| 0 <= j < c ==> !ipv4_at(#[trigger] self.addr_info@[j]);
                            assert(c == i) by {
                                if c < i {
                                    assert(!ipv4_at(self.addr_info@[c]));
                                } else if c > i {
                                    assert(!ipv4_at(self.addr_info@[i as int]));
                                }
                            }
                        }
                        return Some(copy_str(local.as_str()));
                    }
                }
            }
            i = i + 1;
        }
        None
    }

    /// The first interface named `name` among `interfaces`.
    pub fn find<'a>(interfaces: &'a Vec<InterfaceInfo>, name: &str) -> (r: Option<&'a InterfaceInfo>)
        ensures
            match r {
                Some(f) => exists|i: int| 0 <= i < interfaces@.len() && #[trigger] interfaces@[i] == *f && (f.ifname matches Some(n)
                    && n@ == name@) && forall|j: int| 0 <= j < i ==> !(#[trigger] interfaces@[j].ifname matches Some(n) && n@ == name@),
                None => forall|i: int| 0 <= i < interfaces@.len() ==> !(#[trigger] interfaces@[i].ifname matches Some(n) && n@ == name@),
            },
    {
        let mut i: usize = 0;
        while i < interfaces.len()
            invariant
                i <= interfaces@.len(),
                forall|j: int| 0 <= j < i ==> !(#[trigger] interfaces@[j].ifname matches Some(n) && n@ == name@),
            decreases interfaces@.len() - i,
        {
            if let Some(n) = &interfaces[i].ifname {
                if str_eq(n.as_str(), name) {
                    return Some(&interfaces[i]);
                }
            }
            i = i + 1;
        }
        None
    }
}

/// `new` is `old` with the host entry `host.docker.internal` for `addr`
/// added last.
pub open spec fn with_host(old: Service, new: Service, addr: Seq<char>) -> bool {
    &&& new.extra_hosts@.len() == old.extra_hosts@.len() + 1
    &&& forall|j: int| 0 <= j < old.extra_hosts@.len() ==> new.extra_hosts@[j] == old.extra_hosts@[j]
    &&& new.extra_hosts@.last().host@ == "host.docker.internal"@ && new.extra_hosts@.last().address@ == addr
    &&& new.image == old.image && new.build == old.build && new.labels == old.labels && new.env_files == old.env_files
    &&& new.environment == old.environment && new.volumes == old.volumes && new.ports == old.ports
}

/// The address to give `host.docker.internal`: only on Linux, when writing
/// output, and only when the Docker bridge interface was found, with an
/// IPv4 address; `bridge` is what looking the interface up gave.
pub fn host_dns_address(op: Operation, on_linux: bool, bridge: &Result<Option<InterfaceInfo>, String>) -> (r: Option<String>)
    ensures
        !(on_linux && op == Operation::Output) ==> r is None,
        on_linux && op == Operation::Output ==> match bridge {
            Ok(Some(iface)) => match iface.ipv4_address_spec() {
                Some(a) => r matches Some(t) && t@ == a,
                None => r is None,
            },
            _ => r is None,
        },
{
    if !(on_linux && op == Operation::Output) {
        return None;
    }
    match bridge {
        Ok(Some(iface)) => iface.ipv4_address(),
        _ => None,
    }
}

/// Point `host.docker.internal` at `addr` in every service.
pub fn add_host_entries(file: &mut File, addr: &str)
    ensures
        each_service(old(file).services@, final(file).services@, |_n: Seq<char>, o: Service, s: Service| with_host(o, s, addr@)),
{
    let ghost start = file.services@;
    let n = file.services.len();
    let mut i: usize = 0;
    while i < n
        invariant
            n == start.len(),
            i <= n,
            file.services@.len() == n,
            forall|j: int| 0 <= j < i ==> (#[trigger] file.services@[j]).0 == start[j].0 && with_host(start[j].1, file.services@[j].1, addr@),
            forall|j: int| i <= j < n ==> #[trigger] file.services@[j] == start[j],
        decreases n - i,
    {
        let mut svc = file.services.replace_value_at(i, Service::empty());
        svc.extra_hosts.push(HostMapping { host: copy_str("host.docker.internal"), address: copy_str(addr) });
        let _ = file.services.replace_value_at(i, svc);
        i = i + 1;
    }
}

impl InterfaceInfo {
    /// The first IPv4 address of this interface, as a value.
    pub open spec fn ipv4_address_spec(&self) -> Option<Seq<char>> {
        if exists|i: int| 0 <= i < self.addr_info@.len() && ipv4_at(#[trigger] self.addr_info@[i]) {
            let i = choose|i: int| 0 <= i < self.addr_info@.len() && ipv4_at(#[trigger] self.addr_info@[i]) && forall|j: int|
                0 <= j < i ==> !ipv4_at(#[trigger] self.addr_info@[j]);
            Some(self.addr_info@[i].local->0@)
        } else {
            None
        }
    }
}

} // verus!
