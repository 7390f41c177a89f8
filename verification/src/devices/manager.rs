//! The device manager: the drivers whose devices processes can use, and how
//! a device identifier names one of them.
use vstd::prelude::*;

verus! {

/// What kind of device a driver offers.
#[derive(Clone, Copy, Debug, PartialEq, Eq, Structural)]
pub enum DeviceType {
    Keyboard,
}

/// A device a driver offers.
pub struct DeviceInfo {
    pub device_name: String,
    pub device_type: DeviceType,
}

/// A driver's name and the devices it offers.
pub struct DriverInfo {
    pub driver_name: String,
    pub devices: Vec<DeviceInfo>,
}

/// The index of the colon in `s`, when it holds exactly one.
pub open spec fn single_colon(s: Seq<char>) -> Option<int> {
    if exists|i: int| 0 <= i < s.len() && s[i] == ':' && forall|j: int|
        0 <= j < s.len() && j != i ==> s[j] != ':' {
        Some(
            choose|i: int|
                0 <= i < s.len() && s[i] == ':' && forall|j: int|
                    0 <= j < s.len() && j != i ==> s[j] != ':',
        )
    } else {
        None
    }
}

/// Splits a device identifier `[driver_name]:[device_name]` into its two
/// names; `None` unless it has exactly two colon-separated pieces.
pub fn split_identifier(device_identifier: &str) -> (r: Option<(String, String)>)
    ensures
        match single_colon(device_identifier@) {
            Some(i) => r matches Some((driver, device)) && driver@ == device_identifier@.subrange(
                0,
                i,
            ) && device@ == device_identifier@.subrange(i + 1, device_identifier@.len() as int),
            None => r is None,
        },
{
    let n = device_identifier.unicode_len();
    let mut colon: Option<usize> = None;
    let mut i: usize = 0;
    while i < n
        invariant
            n == device_identifier@.len(),
            i <= n,
            match colon {
                None => forall|j: int| 0 <= j < i ==> device_identifier@[j] != ':',
                Some(c) => c < i && device_identifier@[c as int] == ':' && forall|j: int|
                    0 <= j < i && j != c ==> device_identifier@[j] != ':',
            },
        decreases n - i,
    {
        if device_identifier.get_char(i) == ':' {
            match colon {
                None => {
                    colon = Some(i);
                },
                Some(c) => {
                    // Invalid identifier if it has more than 2 pieces
                    proof {
                        assert(single_colon(device_identifier@) is None) by {
                            if exists|k: int|
                                0 <= k < n && device_identifier@[k] == ':' && forall|j: int|
                                    0 <= j < n && j != k ==> device_identifier@[j] != ':' {
                                let k = choose|k: int|
                                    0 <= k < n && device_identifier@[k] == ':' && forall|j: int|
                                        0 <= j < n && j != k ==> device_identifier@[j] != ':';
                                assert(k == c || k == i);
                            }
                        }
                    }
                    return None;
                },
            }
        }
        i = i + 1;
    }
    match colon {
        None => {
            proof {
                assert(single_colon(device_identifier@) is None);
            }
            None
        },
        Some(c) => {
            proof {
                let k = choose|k: int|
                    0 <= k < n && device_identifier@[k] == ':' && forall|j: int|
                        0 <= j < n && j != k ==> device_identifier@[j] != ':';
                assert(device_identifier@[c as int] == ':');
                assert(k == c);
            }
            let driver = device_identifier.substring_char(0, c);
            let device = device_identifier.substring_char(c + 1, n);
            Some((driver.to_owned(), device.to_owned()))
        },
    }
}

/// The positions of the names that occur there for the first time, in
/// order.
pub open spec fn first_names(names: Seq<Seq<char>>) -> Seq<int>
    decreases names.len(),
{
    if names.len() == 0 {
        Seq::empty()
    } else {
        let prev = first_names(names.drop_last());
        if names.drop_last().contains(names.last()) {
            prev
        } else {
            prev.push(names.len() - 1)
        }
    }
}

/// The names of a list of drivers.
pub open spec fn driver_names(infos: Seq<DriverInfo>) -> Seq<Seq<char>> {
    infos.map_values(|d: DriverInfo| d.driver_name@)
}

/// The index of the first driver named `name`, if any.
pub fn find_driver(infos: &Vec<DriverInfo>, name: &String) -> (r: Option<usize>)
    ensures
        match r {
            Some(i) => i < infos@.len() && infos@[i as int].driver_name@ == name@ && forall|j: int|
                0 <= j < i ==> infos@[j].driver_name@ != name@,
            None => !driver_names(infos@).contains(name@),
        },
{
    let mut i: usize = 0;
    while i < infos.len()
        invariant
            i <= infos@.len(),
            forall|j: int| 0 <= j < i ==> infos@[j].driver_name@ != name@,
        decreases infos.len() - i,
    {
        if infos[i].driver_name == *name {
            return Some(i);
        }
        i = i + 1;
    }
    proof {
        if driver_names(infos@).contains(name@) {
            let k = choose|k: int| 0 <= k < infos@.len() && driver_names(infos@)[k] == name@;
            assert(infos@[k].driver_name@ == name@);
        }
    }
    None
}

/// Keeps the first driver of each name, in order: a driver whose name is
/// already taken is thrown out.
pub fn unique_drivers(infos: Vec<DriverInfo>) -> (r: Vec<DriverInfo>)
    ensures
        r@.len() == first_names(driver_names(infos@)).len(),
        forall|k: int|
            0 <= k < r@.len() ==> #[trigger] r@[k] == infos@[first_names(driver_names(infos@))[k]],
{
    let ghost all = infos@;
    let ghost names = driver_names(all);
    let total = infos.len();
    let mut rest = infos;
    let mut kept: Vec<DriverInfo> = Vec::new();
    let mut i: usize = 0;
    while rest.len() > 0
        invariant
            i + rest@.len() == all.len(),
            total == all.len(),
            rest@ == all.skip(i as int),
            names == driver_names(all),
            kept@.len() == first_names(names.take(i as int)).len(),
            forall|k: int|
                0 <= k < kept@.len() ==> #[trigger] kept@[k] == all[first_names(
                    names.take(i as int),
                )[k]],
            forall|x: Seq<char>|
                driver_names(kept@).contains(x) <==> names.take(i as int).contains(x),
        decreases rest.len(),
    {
        let d = rest.remove(0);
        let ghost before = kept@;
        let ghost t0 = names.take(i as int);
        let ghost t1 = names.take(i + 1);
        proof {
            assert(d == all[i as int]);
            assert(t1.drop_last() =~= t0);
            assert(t1.last() == d.driver_name@);
            assert(rest@ =~= all.skip(i + 1));
            assert forall|k: int| 0 <= k < t0.len() implies t1[k] == #[trigger] t0[k] by {}
        }
        if !find_driver(&kept, &d.driver_name).is_some() {
            kept.push(d);
            proof {
                let kn = driver_names(kept@);
                assert(kn =~= driver_names(before).push(all[i as int].driver_name@));
                assert forall|x: Seq<char>| kn.contains(x) <==> t1.contains(x) by {
                    if t1.contains(x) {
                        let k = choose|k: int| 0 <= k < t1.len() && #[trigger] t1[k] == x;
                        if k < i {
                            assert(t0[k] == x);
                            assert(t0.contains(x));
                            assert(driver_names(before).contains(x));
                            let m = choose|m: int| 0 <= m < before.len() && #[trigger] driver_names(before)[m] == x;
                            assert(kn[m] == x);
                        } else {
                            assert(kn[kn.len() - 1] == x);
                        }
                    }
                    if kn.contains(x) {
                        let k = choose|k: int| 0 <= k < kn.len() && #[trigger] kn[k] == x;
                        if k < before.len() {
                            assert(driver_names(before)[k] == x);
                            assert(driver_names(before).contains(x));
                            let m = choose|m: int| 0 <= m < t0.len() && #[trigger] t0[m] == x;
                            assert(t1[m] == x);
                        } else {
                            assert(t1[i as int] == x);
                        }
                    }
                }
            }
        } else {
            proof {
                let kn = driver_names(kept@);
                let k = choose|k: int| 0 <= k < kept@.len() && #[trigger] kept@[k].driver_name@ == d.driver_name@;
                assert(kn[k] == d.driver_name@);
                assert(kn.contains(d.driver_name@));
                assert forall|x: Seq<char>| kn.contains(x) <==> t1.contains(x) by {
                    if t1.contains(x) {
                        let k = choose|k: int| 0 <= k < t1.len() && #[trigger] t1[k] == x;
                        if k < i {
                            assert(t0[k] == x);
                            assert(t0.contains(x));
                        }
                    }
                    if kn.contains(x) {
                        assert(t0.contains(x));
                        let m = choose|m: int| 0 <= m < t0.len() && #[trigger] t0[m] == x;
                        assert(t1[m] == x);
                    }
                }
            }
        }
        i = i + 1;
    }
    proof {
        assert(names.take(all.len() as int) =~= names);
    }
    kept
}

/// What the PS/2 keyboard driver offers: one keyboard.
pub fn keyboard_driver_info() -> (r: DriverInfo)
    ensures
        r.driver_name@ == "ps2_keyboard"@,
        r.devices@.len() == 1,
        r.devices@[0].device_name@ == "keyboard"@,
        r.devices@[0].device_type == DeviceType::Keyboard,
{
    let kb = DeviceInfo { device_name: String::from_str("keyboard"), device_type: DeviceType::Keyboard };
    let mut devices: Vec<DeviceInfo> = Vec::new();
    devices.push(kb);
    DriverInfo { driver_name: String::from_str("ps2_keyboard"), devices }
}

} // verus!
