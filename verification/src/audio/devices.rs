//! Choosing the microphone and the output a call uses.

use crate::text::{contains, ends_with, is_some_text, lowercase_of, occurs_in, same, stands_at, starts_with, to_lowercase};
use vstd::prelude::*;

verus! {

/// One device offered to the user.
pub struct DeviceOption {
    pub id: String,
    pub name: String,
    /// The device the platform would pick on its own right now.
    pub is_default: bool,
}

/// A device's id, with the host it belongs to and without.
pub struct DeviceId {
    pub full: String,
    pub bare: String,
}

/// A device as a host lists it. One whose id cannot be read has none.
pub struct ListedDevice {
    pub id: Option<DeviceId>,
    pub name: String,
}

/// What one audio host lists for one direction.
pub struct HostListing {
    pub alsa: bool,
    pub default_id: Option<String>,
    pub devices: Vec<ListedDevice>,
}

/// An ALSA entry that is not a card: a plugin, a bridge, or a card's raw endpoint.
pub open spec fn pseudo(alsa: bool, id: Seq<char>) -> bool {
    alsa && !(occurs_in(id, "CARD="@) && !stands_at(id, "usbstream"@, 0))
}

/// Whether an entry is a piece of configuration and not a device.
pub fn is_pseudo_device(alsa: bool, id: &str) -> (r: bool)
    ensures
        r == pseudo(alsa, id@),
{
    if alsa {
        let real_card = contains(id, "CARD=") && !starts_with(id, "usbstream");
        return !real_card;
    }
    false
}

/// A capture device that listens to an output.
pub open spec fn monitor(id: Seq<char>, name: Seq<char>) -> bool {
    stands_at(id, ".monitor"@, id.len() - ".monitor"@.len()) || occurs_in(lowercase_of(name), "monitor of "@)
}

/// Whether a capture device is a monitor of an output and not a microphone.
pub fn is_monitor(id: &str, name: &str) -> (r: bool)
    ensures
        r == monitor(id@, name@),
{
    ends_with(id, ".monitor") || contains(to_lowercase(name).as_str(), "monitor of ")
}

/// A device of this name is on offer.
pub open spec fn name_taken(offered: Seq<DeviceOption>, name: Seq<char>) -> bool {
    exists|i: int| 0 <= i < offered.len() && (#[trigger] offered[i]).name@ == name
}

fn is_name_taken(offered: &Vec<DeviceOption>, name: &str) -> (r: bool)
    ensures
        r == name_taken(offered@, name@),
{
    let mut i: usize = 0;
    while i < offered.len()
        invariant
            i <= offered@.len(),
            forall|j: int| 0 <= j < i ==> (#[trigger] offered@[j]).name@ != name@,
        decreases offered.len() - i,
    {
        if same(offered[i].name.as_str(), name) {
            return true;
        }
        i = i + 1;
    }
    false
}

/// What a host offers out of its first devices: real ones, no monitors among the
/// microphones, one row per name, the platform's own choice marked.
pub open spec fn offered(host: HostListing, devices: Seq<ListedDevice>, input: bool) -> Seq<DeviceOption>
    decreases devices.len(),
{
    if devices.len() == 0 {
        Seq::empty()
    } else {
        let head = offered(host, devices.drop_last(), input);
        let d = devices.last();
        match d.id {
            None => head,
            Some(id) => if pseudo(host.alsa, id.bare@) || (input && monitor(id.bare@, d.name@)) || name_taken(
                head,
                d.name@,
            ) {
                head
            } else {
                head.push(
                    DeviceOption {
                        id: id.full,
                        name: d.name,
                        is_default: host.default_id matches Some(def) && def@ == id.full@,
                    },
                )
            },
        }
    }
}

fn host_devices(host: &HostListing, input: bool) -> (r: Vec<DeviceOption>)
    ensures
        r@ == offered(*host, host.devices@, input),
{
    let mut out: Vec<DeviceOption> = Vec::new();
    let mut i: usize = 0;
    assert(host.devices@.take(0) =~= Seq::<ListedDevice>::empty());
    while i < host.devices.len()
        invariant
            i <= host.devices@.len(),
            out@ == offered(*host, host.devices@.take(i as int), input),
        decreases host.devices.len() - i,
    {
        let ghost upto = host.devices@.take(i + 1);
        assert(upto.drop_last() =~= host.devices@.take(i as int));
        assert(upto.last() == host.devices@[i as int]);
        let d: &ListedDevice = &host.devices[i];
        match &d.id {
            Some(id) => {
                if !is_pseudo_device(host.alsa, id.bare.as_str()) && !(input && is_monitor(
                    id.bare.as_str(),
                    d.name.as_str(),
                )) && !is_name_taken(&out, d.name.as_str()) {
                    out.push(
                        DeviceOption {
                            is_default: is_some_text(&host.default_id, id.full.as_str()),
                            id: id.full.clone(),
                            name: d.name.clone(),
                        },
                    );
                }
            },
            None => {},
        }
        i = i + 1;
    }
    assert(host.devices@.take(i as int) =~= host.devices@);
    out
}

/// The list the user chooses from: that of the first host that offers anything.
pub open spec fn first_offer(hosts: Seq<HostListing>, input: bool) -> Seq<DeviceOption>
    decreases hosts.len(),
{
    if hosts.len() == 0 {
        Seq::empty()
    } else {
        let mine = offered(hosts[0], hosts[0].devices@, input);
        if mine.len() > 0 {
            mine
        } else {
            first_offer(hosts.skip(1), input)
        }
    }
}

/// The microphones (`input`) or outputs a call could use.
pub fn list_devices(hosts: &Vec<HostListing>, input: bool) -> (r: Vec<DeviceOption>)
    ensures
        r@ == first_offer(hosts@, input),
{
    let mut i: usize = 0;
    assert(hosts@.skip(0) =~= hosts@);
    while i < hosts.len()
        invariant
            i <= hosts@.len(),
            first_offer(hosts@, input) == first_offer(hosts@.skip(i as int), input),
        decreases hosts.len() - i,
    {
        assert(hosts@.skip(i as int)[0] == hosts@[i as int]);
        let out: Vec<DeviceOption> = host_devices(&hosts[i], input);
        if out.len() > 0 {
            return out;
        }
        assert(hosts@.skip(i as int).skip(1) =~= hosts@.skip(i + 1));
        i = i + 1;
    }
    Vec::new()
}

/// No two rows of a list carry the same name.
pub proof fn lemma_one_row_per_name(host: HostListing, devices: Seq<ListedDevice>, input: bool)
    ensures
        forall|i: int, j: int|
            0 <= i < j < offered(host, devices, input).len() ==> (#[trigger] offered(
                host,
                devices,
                input,
            )[i]).name@ != (#[trigger] offered(host, devices, input)[j]).name@,
    decreases devices.len(),
{
    if devices.len() > 0 {
        let head = offered(host, devices.drop_last(), input);
        let all = offered(host, devices, input);
        lemma_one_row_per_name(host, devices.drop_last(), input);
        assert forall|i: int, j: int| 0 <= i < j < all.len() implies (#[trigger] all[i]).name@ != (
        #[trigger] all[j]).name@ by {
            assert(all[i] == head[i]);
            if j < head.len() {
                assert(all[j] == head[j]);
            } else {
                assert(!name_taken(head, all[j].name@));
            }
        }
    }
}

/// The devices the user pinned, and a count of how often that changed. Running streams watch
/// the count and are rebuilt when it moves.
pub struct DevicePrefs {
    pub input: Option<String>,
    pub output: Option<String>,
    pub epoch: u64,
}

impl DevicePrefs {
    /// Nothing pinned.
    pub fn new() -> (r: DevicePrefs)
        ensures
            r.input is None,
            r.output is None,
            r.epoch == 0,
    {
        DevicePrefs { input: None, output: None, epoch: 0 }
    }

    /// The pin of one direction.
    pub open spec fn pin(self, input: bool) -> Option<String> {
        if input {
            self.input
        } else {
            self.output
        }
    }
}

/// Two optional texts agree.
pub open spec fn same_pin(a: Option<String>, b: Option<String>) -> bool {
    match (a, b) {
        (Some(x), Some(y)) => x@ == y@,
        (None, None) => true,
        _ => false,
    }
}

fn is_same_pin(a: &Option<String>, b: &Option<String>) -> (r: bool)
    ensures
        r == same_pin(*a, *b),
{
    match (a, b) {
        (Some(x), Some(y)) => same(x.as_str(), y.as_str()),
        (None, None) => true,
        _ => false,
    }
}

/// Pin a device, or with `None` go back to the platform's choice. Asking again for what is
/// pinned already changes nothing, so running streams are left alone.
pub fn set_device(prefs: &mut DevicePrefs, input: bool, id: Option<String>)
    ensures
        same_pin(old(prefs).pin(input), id) ==> *final(prefs) == *old(prefs),
        !same_pin(old(prefs).pin(input), id) ==> {
            &&& final(prefs).pin(input) == id
            &&& final(prefs).pin(!input) == old(prefs).pin(!input)
            &&& final(prefs).epoch == old(prefs).epoch.wrapping_add(1)
        },
{
    let unchanged = if input {
        is_same_pin(&prefs.input, &id)
    } else {
        is_same_pin(&prefs.output, &id)
    };
    if unchanged {
        return;
    }
    if input {
        prefs.input = id;
    } else {
        prefs.output = id;
    }
    prefs.epoch = prefs.epoch.wrapping_add(1);
}

fn copy_pin(pin: &Option<String>) -> (r: Option<String>)
    ensures
        r == *pin,
{
    match pin {
        Some(id) => Some(id.clone()),
        None => None,
    }
}

/// The pinned microphone and output.
pub fn pinned_devices(prefs: &DevicePrefs) -> (r: (Option<String>, Option<String>))
    ensures
        r.0 == prefs.input,
        r.1 == prefs.output,
{
    (copy_pin(&prefs.input), copy_pin(&prefs.output))
}

/// Where an id stands first in a list.
pub open spec fn id_pos(ids: Seq<Option<String>>, want: Seq<char>) -> int
    decreases ids.len(),
{
    if ids.len() == 0 {
        0
    } else if ids[0] matches Some(id) && id@ == want {
        0
    } else {
        1 + id_pos(ids.skip(1), want)
    }
}

fn find_id(ids: &Vec<Option<String>>, want: &str) -> (r: usize)
    ensures
        r == id_pos(ids@, want@),
        r <= ids@.len(),
{
    let mut i: usize = 0;
    assert(ids@.skip(0) =~= ids@);
    while i < ids.len()
        invariant
            i <= ids@.len(),
            id_pos(ids@, want@) == i + id_pos(ids@.skip(i as int), want@),
        decreases ids.len() - i,
    {
        assert(ids@.skip(i as int)[0] == ids@[i as int]);
        if is_some_text(&ids[i], want) {
            return i;
        }
        assert(ids@.skip(i as int).skip(1) =~= ids@.skip(i + 1));
        i = i + 1;
    }
    i
}

/// The first host, and the place in its list, where an id is found.
pub open spec fn found_at(hosts: Seq<Vec<Option<String>>>, want: Seq<char>) -> Option<(int, int)>
    decreases hosts.len(),
{
    if hosts.len() == 0 {
        None
    } else {
        let here = id_pos(hosts[0]@, want);
        if here < hosts[0]@.len() {
            Some((0, here))
        } else {
            match found_at(hosts.skip(1), want) {
                Some((h, d)) => Some((h + 1, d)),
                None => None,
            }
        }
    }
}

/// Find the pinned device among what each host lists. Unpinned, or unplugged since, is
/// `None`: the platform's choice.
pub fn pinned_device(prefs: &DevicePrefs, input: bool, hosts: &Vec<Vec<Option<String>>>) -> (r: Option<
    (usize, usize),
>)
    ensures
        match prefs.pin(input) {
            None => r is None,
            Some(want) => match found_at(hosts@, want@) {
                Some((h, d)) => r matches Some((rh, rd)) && rh == h && rd == d,
                None => r is None,
            },
        },
{
    let pin: Option<String> = if input {
        copy_pin(&prefs.input)
    } else {
        copy_pin(&prefs.output)
    };
    match pin {
        None => None,
        Some(want) => {
            let mut h: usize = 0;
            assert(hosts@.skip(0) =~= hosts@);
            while h < hosts.len()
                invariant
                    h <= hosts@.len(),
                    prefs.pin(input) == Some(want),
                    match found_at(hosts@.skip(h as int), want@) {
                        Some((x, d)) => found_at(hosts@, want@) == Some((h + x, d)),
                        None => found_at(hosts@, want@) is None,
                    },
                decreases hosts.len() - h,
            {
                assert(hosts@.skip(h as int)[0] == hosts@[h as int]);
                let d: usize = find_id(&hosts[h], want.as_str());
                if d < hosts[h].len() {
                    return Some((h, d));
                }
                assert(hosts@.skip(h as int).skip(1) =~= hosts@.skip(h + 1));
                h = h + 1;
            }
            None
        },
    }
}

/// An audio host to try for a call.
#[derive(Clone, Copy, Debug, PartialEq, Eq, Structural)]
pub enum HostPick {
    Alsa,
    Platform,
}

/// The hosts to try, best first: ALSA where there is one, then the platform's default unless
/// that is ALSA again.
pub fn call_hosts(alsa_available: bool, default_is_alsa: bool) -> (r: Vec<HostPick>)
    ensures
        r@ == (if alsa_available {
            seq![HostPick::Alsa]
        } else {
            Seq::<HostPick>::empty()
        }) + (if alsa_available && default_is_alsa {
            Seq::<HostPick>::empty()
        } else {
            seq![HostPick::Platform]
        }),
{
    let mut hosts: Vec<HostPick> = Vec::new();
    if alsa_available {
        hosts.push(HostPick::Alsa);
    }
    if !(alsa_available && default_is_alsa) {
        hosts.push(HostPick::Platform);
    }
    assert(hosts@ =~= (if alsa_available {
        seq![HostPick::Alsa]
    } else {
        Seq::<HostPick>::empty()
    }) + (if alsa_available && default_is_alsa {
        Seq::<HostPick>::empty()
    } else {
        seq![HostPick::Platform]
    }));
    hosts
}

/// Devices preferred by name; an empty name means the platform's choice.
pub struct NamedDevices {
    pub input: String,
    pub output: String,
}

/// Set both preferred devices. They apply from the next call on.
pub fn set_audio_devices(prefs: &mut NamedDevices, input: &str, output: &str)
    ensures
        final(prefs).input@ == input@,
        final(prefs).output@ == output@,
{
    prefs.input = input.to_owned();
    prefs.output = output.to_owned();
}

/// Which device a preferred name resolves to.
#[derive(Clone, Copy, Debug, PartialEq, Eq, Structural)]
pub enum DeviceChoice {
    /// The platform's own choice.
    Platform,
    /// The device at this place in the list.
    Listed(usize),
}

/// Resolve a preferred name among the names a host lists. No preference, and a name nothing
/// answers to, fall back to the platform's choice.
pub fn find_device(names: &Vec<Option<String>>, name: &str) -> (r: DeviceChoice)
    ensures
        r == if name@.len() == 0 || id_pos(names@, name@) >= names@.len() {
            DeviceChoice::Platform
        } else {
            DeviceChoice::Listed(id_pos(names@, name@) as usize)
        },
{
    if name.is_empty() {
        return DeviceChoice::Platform;
    }
    let i: usize = find_id(names, name);
    if i < names.len() {
        DeviceChoice::Listed(i)
    } else {
        DeviceChoice::Platform
    }
}

/// A device in the settings list.
pub struct NamedDevice {
    pub name: String,
    pub is_default: bool,
}

/// The settings list for one direction: the readable names, the platform's choice marked.
pub open spec fn named_list(names: Seq<Option<String>>, default: Option<String>) -> Seq<NamedDevice>
    decreases names.len(),
{
    if names.len() == 0 {
        Seq::empty()
    } else {
        let head = named_list(names.drop_last(), default);
        match names.last() {
            Some(name) => head.push(
                NamedDevice { name, is_default: default matches Some(d) && d@ == name@ },
            ),
            None => head,
        }
    }
}

/// The devices of one direction, for the settings.
pub fn list_audio_devices(names: &Vec<Option<String>>, default: &Option<String>) -> (r: Vec<NamedDevice>)
    ensures
        r@ == named_list(names@, *default),
{
    let mut out: Vec<NamedDevice> = Vec::new();
    let mut i: usize = 0;
    assert(names@.take(0) =~= Seq::<Option<String>>::empty());
    while i < names.len()
        invariant
            i <= names@.len(),
            out@ == named_list(names@.take(i as int), *default),
        decreases names.len() - i,
    {
        let ghost upto = names@.take(i + 1);
        assert(upto.drop_last() =~= names@.take(i as int));
        assert(upto.last() == names@[i as int]);
        match &names[i] {
            Some(name) => {
                out.push(
                    NamedDevice { is_default: is_some_text(default, name.as_str()), name: name.clone() },
                );
            },
            None => {},
        }
        i = i + 1;
    }
    assert(names@.take(i as int) =~= names@);
    out
}

/// A listed device that a call could use: it can be named, it is a card where the host lists more
/// than cards, and as a microphone it does not listen to an output.
pub open spec fn usable(host: HostListing, d: ListedDevice, input: bool) -> bool {
    &&& d.id is Some
    &&& host.alsa ==> {
        &&& exists|at: int| #[trigger] stands_at(d.id->0.bare@, "CARD="@, at)
        &&& !stands_at(d.id->0.bare@, "usbstream"@, 0)
    }
    &&& input ==> {
        &&& !stands_at(d.id->0.bare@, ".monitor"@, d.id->0.bare@.len() - ".monitor"@.len())
        &&& forall|at: int| !#[trigger] stands_at(lowercase_of(d.name@), "monitor of "@, at)
    }
}

proof fn lemma_usable(host: HostListing, d: ListedDevice, input: bool)
    ensures
        usable(host, d, input) == (d.id is Some && !pseudo(host.alsa, d.id->0.bare@) && !(input && monitor(
            d.id->0.bare@,
            d.name@,
        ))),
{
}

/// Every row stands for a device that the host lists and a call could use: the first of its name,
/// with its id and its name, and marked exactly where it is the platform's own choice.
pub proof fn lemma_a_row_stands_for_a_device(host: HostListing, devices: Seq<ListedDevice>, input: bool, i: int) -> (k: int)
    requires
        0 <= i < offered(host, devices, input).len(),
    ensures
        0 <= k < devices.len(),
        usable(host, devices[k], input),
        ({
            let row = offered(host, devices, input)[i];
            &&& row.id@ == devices[k].id->0.full@
            &&& row.name@ == devices[k].name@
            &&& row.is_default <==> host.default_id is Some && host.default_id->0@ == row.id@
        }),
        forall|j: int|
            0 <= j < k && usable(host, #[trigger] devices[j], input) ==> devices[j].name@ != devices[k].name@,
    decreases devices.len(),
{
    let head = offered(host, devices.drop_last(), input);
    lemma_usable(host, devices.last(), input);
    if i < head.len() {
        let k = lemma_a_row_stands_for_a_device(host, devices.drop_last(), input, i);
        assert forall|j: int| 0 <= j < k && usable(host, #[trigger] devices[j], input) implies devices[j].name@
            != devices[k].name@ by {
            assert(devices.drop_last()[j] == devices[j]);
        }
        k
    } else {
        let k = devices.len() - 1;
        assert forall|j: int| 0 <= j < k && usable(host, #[trigger] devices[j], input) implies devices[j].name@
            != devices[k].name@ by {
            assert(devices.drop_last()[j] == devices[j]);
            lemma_every_usable_device_is_offered(host, devices.drop_last(), input, j);
        }
        k
    }
}

/// Every device that a call could use is on offer under its name.
pub proof fn lemma_every_usable_device_is_offered(
    host: HostListing,
    devices: Seq<ListedDevice>,
    input: bool,
    k: int,
)
    requires
        0 <= k < devices.len(),
        usable(host, devices[k], input),
    ensures
        exists|i: int|
            0 <= i < offered(host, devices, input).len() && (#[trigger] offered(host, devices, input)[i]).name@
                == devices[k].name@,
    decreases devices.len(),
{
    let head = offered(host, devices.drop_last(), input);
    let all = offered(host, devices, input);
    lemma_usable(host, devices.last(), input);
    if k < devices.len() - 1 {
        lemma_every_usable_device_is_offered(host, devices.drop_last(), input, k);
        let i = choose|i: int| 0 <= i < head.len() && (#[trigger] head[i]).name@ == devices[k].name@;
        assert(all[i] == head[i]);
    } else if name_taken(head, devices[k].name@) {
        let i = choose|i: int| 0 <= i < head.len() && (#[trigger] head[i]).name@ == devices[k].name@;
        assert(all[i] == head[i]);
    } else {
        assert(all[all.len() - 1].name@ == devices[k].name@);
    }
}

/// The rows are in the order in which the host lists the devices: what it lists after them moves
/// none of them.
pub proof fn lemma_rows_keep_their_places(host: HostListing, devices: Seq<ListedDevice>, more: ListedDevice, input: bool, i: int)
    requires
        0 <= i < offered(host, devices, input).len(),
    ensures
        i < offered(host, devices.push(more), input).len(),
        offered(host, devices.push(more), input)[i] == offered(host, devices, input)[i],
{
    assert(devices.push(more).drop_last() =~= devices);
}

/// The list comes from the first host that offers anything, and is empty only if none does.
pub proof fn lemma_the_first_host_with_an_offer_counts(hosts: Seq<HostListing>, input: bool, h: int)
    requires
        0 <= h <= hosts.len(),
        forall|j: int| 0 <= j < h ==> offered(#[trigger] hosts[j], hosts[j].devices@, input).len() == 0,
    ensures
        h == hosts.len() ==> first_offer(hosts, input).len() == 0,
        h < hosts.len() && offered(hosts[h], hosts[h].devices@, input).len() > 0 ==> first_offer(hosts, input)
            == offered(hosts[h], hosts[h].devices@, input),
    decreases hosts.len(),
{
    if h > 0 {
        assert(offered(hosts[0], hosts[0].devices@, input).len() == 0);
        assert forall|j: int| 0 <= j < h - 1 implies offered(
            #[trigger] hosts.skip(1)[j],
            hosts.skip(1)[j].devices@,
            input,
        ).len() == 0 by {
            assert(hosts.skip(1)[j] == hosts[j + 1]);
        }
        lemma_the_first_host_with_an_offer_counts(hosts.skip(1), input, h - 1);
    }
}

/// An id is found where it stands first, and past the end where it does not stand.
pub proof fn lemma_an_id_is_found_where_it_stands_first(ids: Seq<Option<String>>, want: Seq<char>)
    ensures
        0 <= id_pos(ids, want) <= ids.len(),
        id_pos(ids, want) < ids.len() ==> ids[id_pos(ids, want)] is Some && ids[id_pos(ids, want)]->0@ == want,
        forall|j: int| 0 <= j < id_pos(ids, want) ==> !(#[trigger] ids[j] is Some && ids[j]->0@ == want),
    decreases ids.len(),
{
    if ids.len() > 0 && !(ids[0] is Some && ids[0]->0@ == want) {
        lemma_an_id_is_found_where_it_stands_first(ids.skip(1), want);
        assert forall|j: int| 0 <= j < id_pos(ids, want) implies !(#[trigger] ids[j] is Some && ids[j]->0@ == want) by {
            if j > 0 {
                assert(ids.skip(1)[j - 1] == ids[j]);
            }
        }
    }
}

/// A pinned device is found at the first host that lists it, where it stands first there; it is
/// not found exactly where no host lists it.
pub proof fn lemma_a_pin_is_found_at_the_first_host_that_lists_it(hosts: Seq<Vec<Option<String>>>, want: Seq<char>)
    ensures
        match found_at(hosts, want) {
            Some((h, d)) => {
                &&& 0 <= h < hosts.len()
                &&& 0 <= d < hosts[h]@.len()
                &&& hosts[h]@[d] is Some && hosts[h]@[d]->0@ == want
                &&& forall|j: int| 0 <= j < d ==> !(#[trigger] hosts[h]@[j] is Some && hosts[h]@[j]->0@ == want)
                &&& forall|g: int, j: int|
                    0 <= g < h && 0 <= j < hosts[g]@.len() ==> !(#[trigger] hosts[g]@[j] is Some && hosts[g]@[j]->0@
                        == want)
            },
            None => forall|g: int, j: int|
                0 <= g < hosts.len() && 0 <= j < hosts[g]@.len() ==> !(#[trigger] hosts[g]@[j] is Some
                    && hosts[g]@[j]->0@ == want),
        },
    decreases hosts.len(),
{
    if hosts.len() > 0 {
        let rest = hosts.skip(1);
        lemma_an_id_is_found_where_it_stands_first(hosts[0]@, want);
        lemma_a_pin_is_found_at_the_first_host_that_lists_it(rest, want);
        assert forall|g: int, j: int|
            1 <= g < hosts.len() && 0 <= j < hosts[g]@.len() implies #[trigger] hosts[g]@[j] == rest[g - 1]@[j] by {
            assert(rest[g - 1] == hosts[g]);
        }
    }
}

/// The settings list holds every readable name in order, marked exactly where it is the platform's
/// choice, and nothing for a device without one.
pub proof fn lemma_readable_names_are_listed_in_order(
    names: Seq<Option<String>>,
    more: Seq<Option<String>>,
    name: String,
    default: Option<String>,
)
    ensures
        named_list(names + more, default) == named_list(names, default) + named_list(more, default),
        named_list(seq![None], default).len() == 0,
        named_list(seq![Some(name)], default).len() == 1,
        named_list(seq![Some(name)], default)[0].name == name,
        named_list(seq![Some(name)], default)[0].is_default <==> default is Some && default->0@ == name@,
    decreases more.len(),
{
    assert(seq![Some(name)].drop_last() =~= Seq::<Option<String>>::empty());
    assert(seq![None::<String>].drop_last() =~= Seq::<Option<String>>::empty());
    assert(named_list(Seq::<Option<String>>::empty(), default) =~= Seq::<NamedDevice>::empty());
    if more.len() == 0 {
        assert(names + more =~= names);
    } else {
        lemma_readable_names_are_listed_in_order(names, more.drop_last(), name, default);
        assert((names + more).drop_last() =~= names + more.drop_last());
        assert((names + more).last() == more.last());
        assert(named_list(names + more, default) =~= named_list(names, default) + named_list(more, default));
    }
}

/// Two pins agree when both name the same device, or neither names any.
pub proof fn lemma_when_pins_agree(a: Option<String>, b: Option<String>)
    ensures
        same_pin(a, b) <==> (a is Some <==> b is Some) && (a is Some ==> a->0@ == b->0@),
{
}

} // verus!
