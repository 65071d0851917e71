use vstd::prelude::*;

verus! {

// Compute device selection. At startup the application enumerates the
// platform's devices and hands over, per device, the reported type and
// vendor strings as bytes; the decision of which device runs the kernel
// is made here: the first device whose type names a GPU (case
// insensitively) and whose vendor string starts with "NVIDIA". Finding
// none is a typed failure for the caller to surface, not a crash here.

/// ASCII lowercase of one byte; other bytes pass through.
pub open spec fn spec_ascii_lower(b: u8) -> u8 {
    if 65 <= b <= 90 {
        (b + 32) as u8
    } else {
        b
    }
}

/// ASCII lowercase of a byte string.
pub open spec fn spec_lower(s: Seq<u8>) -> Seq<u8> {
    s.map_values(|b: u8| spec_ascii_lower(b))
}

/// The bytes of "gpu" stand at position `i` of `s`.
pub open spec fn is_gpu_at(s: Seq<u8>, i: int) -> bool {
    &&& i + 3 <= s.len()
    &&& s[i] == 103
    &&& s[i + 1] == 112
    &&& s[i + 2] == 117
}

pub open spec fn contains_gpu(s: Seq<u8>) -> bool {
    exists|i: int| 0 <= i && is_gpu_at(s, i)
}

/// The bytes of "NVIDIA" begin `s`.
pub open spec fn starts_with_nvidia(s: Seq<u8>) -> bool {
    &&& s.len() >= 6
    &&& s[0] == 78
    &&& s[1] == 86
    &&& s[2] == 73
    &&& s[3] == 68
    &&& s[4] == 73
    &&& s[5] == 65
}

/// The selection predicate: a device qualifies when its type string
/// contains "gpu" once lowercased and its vendor string starts with
/// "NVIDIA".
pub open spec fn spec_device_matches(type_info: Seq<u8>, vendor: Seq<u8>) -> bool {
    contains_gpu(spec_lower(type_info)) && starts_with_nvidia(vendor)
}

/// Whether one device's reported type and vendor strings qualify it.
pub fn device_matches(type_info: &Vec<u8>, vendor: &Vec<u8>) -> (r: bool)
    ensures
        r == spec_device_matches(type_info@, vendor@),
{
    // Vendor prefix first: six exact bytes of "NVIDIA".
    if type_info.len() < 3 {
        // A string shorter than "gpu" cannot contain it.
        assert(forall|i: int| 0 <= i ==> !is_gpu_at(spec_lower(type_info@), i));
        return false;
    }
    let n = type_info.len();
    let mut low: Vec<u8> = Vec::new();
    let mut i: usize = 0;
    while i < n
        invariant
            i <= n,
            n == type_info@.len(),
            low@.len() == i,
            forall|k: int| 0 <= k < i ==> #[trigger] low@[k] == spec_ascii_lower(type_info@[k]),
        decreases n - i,
    {
        let b = type_info[i];
        if 65 <= b && b <= 90 {
            low.push(b + 32);
        } else {
            low.push(b);
        }
        i = i + 1;
    }
    proof {
        assert(low@ =~= spec_lower(type_info@));
    }
    let mut found = false;
    let mut j: usize = 0;
    while j < n - 2
        invariant
            3 <= n,
            n == low@.len(),
            low@ == spec_lower(type_info@),
            j <= n,
            found ==> contains_gpu(low@),
            !found ==> forall|k: int| 0 <= k < j ==> !is_gpu_at(low@, k),
        decreases n - j,
    {
        if !found && low[j] == 103 && low[j + 1] == 112 && low[j + 2] == 117 {
            proof {
                assert(is_gpu_at(low@, j as int));
            }
            found = true;
        }
        j = j + 1;
    }
    proof {
        if !found {
            assert forall|k: int| 0 <= k implies !is_gpu_at(low@, k) by {
                if k + 3 <= low@.len() {
                    assert(k < j);
                }
            }
        }
    }
    if !found {
        return false;
    }
    if vendor.len() < 6 {
        return false;
    }
    vendor[0] == 78 && vendor[1] == 86 && vendor[2] == 73 && vendor[3] == 68 && vendor[4] == 73
        && vendor[5] == 65
}

/// Picks the device the renderer will use: the first qualifying one, in
/// enumeration order. `None` exactly when no device qualifies — the
/// caller must then fail startup with a typed error.
pub fn select_device(devices: &Vec<(Vec<u8>, Vec<u8>)>) -> (r: Option<usize>)
    ensures
        match r {
            Some(i) => {
                &&& i < devices@.len()
                &&& spec_device_matches(devices@[i as int].0@, devices@[i as int].1@)
                &&& forall|j: int|
                    0 <= j < i ==> !spec_device_matches(
                        #[trigger] devices@[j].0@,
                        devices@[j].1@,
                    )
            },
            None => forall|j: int|
                0 <= j < devices@.len() ==> !spec_device_matches(
                    #[trigger] devices@[j].0@,
                    devices@[j].1@,
                ),
        },
{
    let n = devices.len();
    let mut i: usize = 0;
    while i < n
        invariant
            i <= n,
            n == devices@.len(),
            forall|j: int|
                0 <= j < i ==> !spec_device_matches(#[trigger] devices@[j].0@, devices@[j].1@),
        decreases n - i,
    {
        let matches_here = device_matches(&devices[i].0, &devices[i].1);
        if matches_here {
            return Some(i);
        }
        i = i + 1;
    }
    None
}

} // verus!
