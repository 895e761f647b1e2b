use vstd::prelude::*;

verus! {

broadcast use vstd::seq_lib::group_to_multiset_ensures;

/// A physical drive offered to the operator.
pub struct Drive {
    /// Device path, such as `/dev/sdb`.
    pub name: String,
    pub model: String,
    pub serial: String,
    pub is_removable: bool,
    pub is_mounted: bool,
    /// Capacity in bytes.
    pub size: u64,
}

/// A block device as the operating system describes it.
pub struct DeviceInfo {
    /// Kernel name, such as `sdb`.
    pub name: String,
    pub model: Option<String>,
    pub serial: Option<String>,
    pub is_removable: bool,
    /// Where each partition is mounted, if it is.
    pub mountpoints: Vec<Option<String>>,
    /// Capacity in 512-byte sectors.
    pub sectors: u64,
}

/// Bytes per sector in a device's reported capacity.
pub const SECTOR_SIZE: u64 = 512;

/// What a drive shows: name, model, serial, removable, mounted, size.
pub type DriveView = (Seq<char>, Seq<char>, Seq<char>, bool, bool, u64);

impl View for Drive {
    type V = DriveView;

    open spec fn view(&self) -> DriveView {
        (self.name@, self.model@, self.serial@, self.is_removable, self.is_mounted, self.size)
    }
}

pub open spec fn text_or_empty(t: Option<String>) -> Seq<char> {
    if t is Some {
        t.unwrap()@
    } else {
        Seq::empty()
    }
}

/// Some partition of the device is mounted.
pub open spec fn has_mounted_partition(d: DeviceInfo) -> bool {
    exists|i: int| 0 <= i < d.mountpoints@.len() && #[trigger] d.mountpoints@[i] is Some
}

/// The drive a device is shown as.
pub open spec fn device_drive(d: DeviceInfo) -> DriveView {
    (
        "/dev/"@ + d.name@,
        text_or_empty(d.model),
        text_or_empty(d.serial),
        d.is_removable,
        has_mounted_partition(d),
        (d.sectors * SECTOR_SIZE) as u64,
    )
}

/// Whether a device is listed: removable ones always, the others only when
/// all drives are asked for.
pub open spec fn is_listed(d: DeviceInfo, all_drives: bool) -> bool {
    d.is_removable || all_drives
}

/// The drives of the listed devices, in the devices' order.
pub open spec fn listed(devices: Seq<DeviceInfo>, all_drives: bool) -> Seq<DriveView>
    decreases devices.len(),
{
    if devices.len() == 0 {
        Seq::empty()
    } else {
        let rest = listed(devices.drop_last(), all_drives);
        if is_listed(devices.last(), all_drives) {
            rest.push(device_drive(devices.last()))
        } else {
            rest
        }
    }
}

/// `a` comes no later than `b` in the order of names: character by
/// character, a prefix first.
pub open spec fn name_le(a: Seq<char>, b: Seq<char>) -> bool
    decreases a.len(),
{
    if a.len() == 0 {
        true
    } else if b.len() == 0 {
        false
    } else if a[0] != b[0] {
        a[0] < b[0]
    } else {
        name_le(a.drop_first(), b.drop_first())
    }
}

/// Each drive's name comes no later than the next one's.
pub open spec fn sorted_by_name(s: Seq<DriveView>) -> bool {
    forall|i: int| 0 <= i < s.len() - 1 ==> name_le(#[trigger] s[i].0, s[i + 1].0)
}

/// Of two names, one comes no later than the other.
pub proof fn lemma_name_le_total(a: Seq<char>, b: Seq<char>)
    ensures
        name_le(a, b) || name_le(b, a),
    decreases a.len(),
{
    if a.len() > 0 && b.len() > 0 && a[0] == b[0] {
        lemma_name_le_total(a.drop_first(), b.drop_first());
    }
}

fn name_le_exec(a: &String, b: &String) -> (r: bool)
    ensures
        r == name_le(a@, b@),
{
    let sa = a.as_str();
    let sb = b.as_str();
    let n = sa.unicode_len();
    let m = sb.unicode_len();
    let mut i: usize = 0;
    assert(a@.skip(0) =~= a@);
    assert(b@.skip(0) =~= b@);
    while i < n && i < m
        invariant
            sa@ == a@,
            sb@ == b@,
            n == a@.len(),
            m == b@.len(),
            i <= n,
            i <= m,
            name_le(a@, b@) == name_le(a@.skip(i as int), b@.skip(i as int)),
        decreases n - i,
    {
        let c = sa.get_char(i);
        let d = sb.get_char(i);
        assert(a@.skip(i as int)[0] == c);
        assert(b@.skip(i as int)[0] == d);
        if c != d {
            assert(a@.skip(i as int).len() > 0 && b@.skip(i as int).len() > 0);
            let r = c < d;
            assert(name_le(a@.skip(i as int), b@.skip(i as int)) == r);
            return r;
        }
        assert(a@.skip(i as int).drop_first() =~= a@.skip(i + 1));
        assert(b@.skip(i as int).drop_first() =~= b@.skip(i + 1));
        i = i + 1;
    }
    i == n
}

fn text_of(t: &Option<String>) -> (r: String)
    ensures
        r@ == text_or_empty(*t),
{
    match t {
        Some(s) => s.clone(),
        None => String::new(),
    }
}

fn any_mounted(d: &DeviceInfo) -> (r: bool)
    ensures
        r == has_mounted_partition(*d),
{
    let mut i: usize = 0;
    while i < d.mountpoints.len()
        invariant
            i <= d.mountpoints@.len(),
            forall|j: int| 0 <= j < i ==> !(#[trigger] d.mountpoints@[j] is Some),
        decreases d.mountpoints@.len() - i,
    {
        if d.mountpoints[i].is_some() {
            return true;
        }
        i = i + 1;
    }
    false
}

fn drive_of(d: &DeviceInfo) -> (r: Drive)
    requires
        d.sectors <= u64::MAX / SECTOR_SIZE,
    ensures
        r@ == device_drive(*d),
{
    let mut name = String::from_str("/dev/");
    name.append(d.name.as_str());
    Drive {
        name,
        model: text_of(&d.model),
        serial: text_of(&d.serial),
        is_removable: d.is_removable,
        is_mounted: any_mounted(d),
        size: d.sectors * SECTOR_SIZE,
    }
}

/// The drives to offer: each removable device, or each device when
/// `all_drives` is set, shown under its `/dev/` path with its capacity in
/// bytes, ordered by name.
pub fn select_drives(devices: &Vec<DeviceInfo>, all_drives: bool) -> (r: Vec<Drive>)
    requires
        forall|i: int| 0 <= i < devices@.len() ==> #[trigger] devices@[i].sectors <= u64::MAX / SECTOR_SIZE,
    ensures
        r@.map_values(|d: Drive| d@).to_multiset() == listed(devices@, all_drives).to_multiset(),
        sorted_by_name(r@.map_values(|d: Drive| d@)),
{
    let mut out: Vec<Drive> = Vec::new();
    let mut i: usize = 0;
    while i < devices.len()
        invariant
            i <= devices@.len(),
            forall|j: int| 0 <= j < devices@.len() ==> #[trigger] devices@[j].sectors <= u64::MAX / SECTOR_SIZE,
            out@.map_values(|d: Drive| d@).to_multiset() == listed(devices@.take(i as int), all_drives).to_multiset(),
            sorted_by_name(out@.map_values(|d: Drive| d@)),
        decreases devices@.len() - i,
    {
        let dev = &devices[i];
        assert(devices@.take(i + 1).drop_last() =~= devices@.take(i as int));
        assert(devices@.take(i + 1).last() == devices@[i as int]);
        if dev.is_removable || all_drives {
            let drive = drive_of(dev);
            let ghost before = out@.map_values(|d: Drive| d@);
            let mut p: usize = out.len();
            while p > 0 && !name_le_exec(&out[p - 1].name, &drive.name)
                invariant
                    p <= out@.len(),
                    before == out@.map_values(|d: Drive| d@),
                    p < out@.len() ==> name_le(drive@.0, out@[p as int]@.0),
                decreases p,
            {
                proof {
                    lemma_name_le_total(out@[p - 1]@.0, drive@.0);
                }
                p = p - 1;
            }
            let ghost v = drive@;
            out.insert(p, drive);
            proof {
                let after = out@.map_values(|d: Drive| d@);
                assert(after =~= before.insert(p as int, v));
                assert(after.to_multiset() == before.to_multiset().insert(v)) by {
                    vstd::seq_lib::to_multiset_insert(before, p as int, v);
                }
                assert(listed(devices@.take(i + 1), all_drives) == listed(devices@.take(i as int), all_drives).push(v));
                assert(sorted_by_name(after)) by {
                    assert forall|k: int| 0 <= k < after.len() - 1 implies name_le(#[trigger] after[k].0, after[k + 1].0) by {
                        if k + 1 < p {
                            assert(after[k] == before[k] && after[k + 1] == before[k + 1]);
                        } else if k + 1 == p {
                            assert(after[k] == before[k]);
                        } else if k == p {
                            assert(after[k + 1] == before[k]);
                        } else {
                            assert(after[k] == before[k - 1] && after[k + 1] == before[k]);
                        }
                    }
                }
            }
        } else {
            assert(listed(devices@.take(i + 1), all_drives) == listed(devices@.take(i as int), all_drives));
        }
        i = i + 1;
    }
    assert(devices@.take(devices@.len() as int) =~= devices@);
    out
}

/// The first row of `drives` whose name is `name`.
pub fn find_drive(drives: &Vec<Drive>, name: &String) -> (r: Option<usize>)
    ensures
        r is Some ==> r.unwrap() < drives@.len() && drives@[r.unwrap() as int].name@ == name@
            && forall|j: int| 0 <= j < r.unwrap() ==> #[trigger] drives@[j].name@ != name@,
        r is None ==> forall|j: int| 0 <= j < drives@.len() ==> #[trigger] drives@[j].name@ != name@,
{
    let mut i: usize = 0;
    while i < drives.len()
        invariant
            i <= drives@.len(),
            forall|j: int| 0 <= j < i ==> #[trigger] drives@[j].name@ != name@,
        decreases drives@.len() - i,
    {
        if drives[i].name == *name {
            return Some(i);
        }
        i = i + 1;
    }
    None
}

} // verus!
