use vstd::prelude::*;

use crate::error::BrightnessError;

verus! {

/// Whether `s` begins with `p`.
pub open spec fn starts_with(s: Seq<char>, p: Seq<char>) -> bool {
    p.len() <= s.len() && s.subrange(0, p.len() as int) == p
}

/// Whether `s` ends with `p`.
pub open spec fn ends_with(s: Seq<char>, p: Seq<char>) -> bool {
    p.len() <= s.len() && s.subrange(s.len() - p.len(), s.len() as int) == p
}

/// Name prefix of embedded display-port panels, which have no DDC/CI.
pub open spec fn embedded_prefix() -> Seq<char> {
    seq!['e', 'D', 'P']
}

/// Name prefix of an I2C bus.
pub open spec fn bus_prefix() -> Seq<char> {
    seq!['i', '2', 'c', '-']
}

/// Directory that holds the I2C device nodes.
pub open spec fn dev_dir() -> Seq<char> {
    seq!['/', 'd', 'e', 'v', '/']
}

/// The characters of each string.
pub open spec fn views(v: Seq<String>) -> Seq<Seq<char>> {
    v.map_values(|x: String| x@)
}

/// The characters of an optional string.
pub open spec fn opt_view(o: Option<String>) -> Option<Seq<char>> {
    match o {
        Some(x) => Some(x@),
        None => None,
    }
}

/// Index of the first element of `s` that satisfies `f`.
pub open spec fn first_index(s: Seq<Seq<char>>, f: spec_fn(Seq<char>) -> bool) -> Option<int>
    decreases s.len(),
{
    if s.len() == 0 {
        None
    } else {
        match first_index(s.drop_last(), f) {
            Some(i) => Some(i),
            None => if f(s.last()) {
                Some(s.len() - 1)
            } else {
                None
            },
        }
    }
}

/// Whether `s` begins with `p`.
pub fn has_prefix(s: &str, p: &str) -> (r: bool)
    ensures
        r == starts_with(s@, p@),
{
    let sl = s.unicode_len();
    let pl = p.unicode_len();
    if pl > sl {
        return false;
    }
    let mut i: usize = 0;
    while i < pl
        invariant
            sl == s@.len(),
            pl == p@.len(),
            pl <= sl,
            i <= pl,
            s@.subrange(0, i as int) =~= p@.subrange(0, i as int),
        decreases pl - i,
    {
        if s.get_char(i) != p.get_char(i) {
            assert(s@.subrange(0, pl as int)[i as int] != p@[i as int]);
            return false;
        }
        i = i + 1;
    }
    assert(p@.subrange(0, pl as int) =~= p@);
    true
}

/// Whether `s` ends with `p`.
pub fn has_suffix(s: &str, p: &str) -> (r: bool)
    ensures
        r == ends_with(s@, p@),
{
    let sl = s.unicode_len();
    let pl = p.unicode_len();
    if pl > sl {
        return false;
    }
    let off = sl - pl;
    let mut i: usize = 0;
    while i < pl
        invariant
            sl == s@.len(),
            pl == p@.len(),
            pl <= sl,
            off == sl - pl,
            i <= pl,
            s@.subrange(off as int, off + i) =~= p@.subrange(0, i as int),
        decreases pl - i,
    {
        if s.get_char(off + i) != p.get_char(i) {
            assert(s@.subrange(off as int, sl as int)[i as int] != p@[i as int]);
            return false;
        }
        i = i + 1;
    }
    assert(p@.subrange(0, pl as int) =~= p@);
    true
}

/// Whether the output is an embedded display-port panel.
pub fn is_embedded_panel(output: &str) -> (r: bool)
    ensures
        r == starts_with(output@, embedded_prefix()),
{
    proof {
        reveal_strlit("eDP");
    }
    assert("eDP"@ =~= embedded_prefix());
    has_prefix(output, "eDP")
}

/// Path of the device node of an I2C bus.
pub fn device_path(bus: &str) -> (r: String)
    ensures
        r@ == dev_dir() + bus@,
{
    proof {
        reveal_strlit("/dev/");
    }
    assert("/dev/"@ =~= dev_dir());
    let mut r = String::from_str("/dev/");
    r.append(bus);
    r
}

/// Picks, among the display output directories `entries` (full paths, in
/// listing order), the first whose path ends with the output's name.
/// Embedded panels are refused whatever the entries are.
pub fn find_output(output: &str, entries: &Vec<String>) -> (r: Result<usize, BrightnessError>)
    ensures
        starts_with(output@, embedded_prefix()) ==> r == Err::<usize, BrightnessError>(
            BrightnessError::UnsupportedOutput,
        ),
        !starts_with(output@, embedded_prefix()) ==> r == match first_index(
            views(entries@),
            |e: Seq<char>| ends_with(e, output@),
        ) {
            Some(i) => Ok(i as usize),
            None => Err(BrightnessError::OutputNotFound),
        },
{
    if is_embedded_panel(output) {
        return Err(BrightnessError::UnsupportedOutput);
    }
    let ghost f = |e: Seq<char>| ends_with(e, output@);
    let ghost s = views(entries@);
    let mut i: usize = 0;
    while i < entries.len()
        invariant
            s == views(entries@),
            !starts_with(output@, embedded_prefix()),
            s.len() == entries@.len(),
            f == (|e: Seq<char>| ends_with(e, output@)),
            i <= entries.len(),
            first_index(s.subrange(0, i as int), f) is None,
        decreases entries.len() - i,
    {
        let hit = has_suffix(entries[i].as_str(), output);
        assert(s.subrange(0, i + 1).drop_last() =~= s.subrange(0, i as int));
        if hit {
            assert(first_index(s.subrange(0, i + 1), f) == Some(i as int));
            assert(s =~= s.subrange(0, s.len() as int));
            proof {
                lemma_first_index_prefix(s, f, i + 1);
            }
            return Ok(i);
        }
        i = i + 1;
    }
    assert(s =~= s.subrange(0, s.len() as int));
    Err(BrightnessError::OutputNotFound)
}

/// Once a prefix of `s` holds a match, the first match of `s` is that one.
proof fn lemma_first_index_prefix(s: Seq<Seq<char>>, f: spec_fn(Seq<char>) -> bool, n: int)
    requires
        0 <= n <= s.len(),
        first_index(s.subrange(0, n), f) is Some,
    ensures
        first_index(s, f) == first_index(s.subrange(0, n), f),
    decreases s.len() - n,
{
    if n < s.len() {
        assert(s.subrange(0, n + 1).drop_last() =~= s.subrange(0, n));
        lemma_first_index_prefix(s, f, n + 1);
    } else {
        assert(s =~= s.subrange(0, n));
    }
}

/// What was read from one display output directory.
pub struct OutputProbe {
    /// Names of the entries directly under the output directory, in
    /// listing order.
    pub children: Vec<String>,
    /// Last path component of the target of the output's `ddc` link, when
    /// the link exists and can be read.
    pub ddc_link_name: Option<String>,
    /// Name of the first entry under the output's `ddc/i2c-dev` directory,
    /// when that directory exists and lists one.
    pub i2c_dev_first: Option<String>,
}

/// One way of finding the I2C bus of an output, for one GPU driver layout.
#[derive(Clone, Copy, Debug, PartialEq, Eq, Structural)]
pub enum BusLocator {
    /// An `i2c-N` entry directly under the output directory.
    AmdSubdirectory,
    /// A `ddc` link under the output directory that points at the bus.
    AmdDdcSymlink,
    /// A `ddc/i2c-dev` directory that lists the bus.
    IntelI2cDev,
}

/// Whether a directory entry names an I2C bus.
pub open spec fn is_bus_name(n: Seq<char>) -> bool {
    starts_with(n, bus_prefix())
}

impl BusLocator {
    /// The device path this strategy finds in a probe, if any.
    pub open spec fn locate_spec(self, probe: OutputProbe) -> Option<Seq<char>> {
        match self {
            BusLocator::AmdSubdirectory => match first_index(
                views(probe.children@),
                |n: Seq<char>| is_bus_name(n),
            ) {
                Some(i) => Some(dev_dir() + probe.children@[i]@),
                None => None,
            },
            BusLocator::AmdDdcSymlink => match probe.ddc_link_name {
                Some(n) => Some(dev_dir() + n@),
                None => None,
            },
            BusLocator::IntelI2cDev => match probe.i2c_dev_first {
                Some(n) => Some(dev_dir() + n@),
                None => None,
            },
        }
    }

    /// Applies this strategy to a probe.
    pub fn try_locate(&self, probe: &OutputProbe) -> (r: Option<String>)
        ensures
            opt_view(r) == self.locate_spec(*probe),
    {
        match self {
            BusLocator::AmdSubdirectory => {
                let ghost f = |n: Seq<char>| is_bus_name(n);
                let ghost s = views(probe.children@);
                proof {
                    reveal_strlit("i2c-");
                }
                assert("i2c-"@ =~= bus_prefix());
                let mut i: usize = 0;
                while i < probe.children.len()
                    invariant
                        *self == BusLocator::AmdSubdirectory,
                        s == views(probe.children@),
                        s.len() == probe.children@.len(),
                        f == (|n: Seq<char>| is_bus_name(n)),
                        "i2c-"@ == bus_prefix(),
                        i <= probe.children.len(),
                        first_index(s.subrange(0, i as int), f) is None,
                    decreases probe.children.len() - i,
                {
                    let name = probe.children[i].as_str();
                    let hit = has_prefix(name, "i2c-");
                    assert(s.subrange(0, i + 1).drop_last() =~= s.subrange(0, i as int));
                    if hit {
                        assert(first_index(s.subrange(0, i + 1), f) == Some(i as int));
                        assert(s =~= s.subrange(0, s.len() as int));
                        proof {
                            lemma_first_index_prefix(s, f, i + 1);
                        }
                        return Some(device_path(name));
                    }
                    i = i + 1;
                }
                assert(s =~= s.subrange(0, s.len() as int));
                None
            },
            BusLocator::AmdDdcSymlink => match &probe.ddc_link_name {
                Some(n) => Some(device_path(n.as_str())),
                None => None,
            },
            BusLocator::IntelI2cDev => match &probe.i2c_dev_first {
                Some(n) => Some(device_path(n.as_str())),
                None => None,
            },
        }
    }
}

/// The strategies, in the order they are tried.
pub open spec fn locator_order() -> Seq<BusLocator> {
    seq![BusLocator::AmdSubdirectory, BusLocator::AmdDdcSymlink, BusLocator::IntelI2cDev]
}

/// The result of the first of `ls` that finds a device path.
pub open spec fn first_located(probe: OutputProbe, ls: Seq<BusLocator>) -> Option<Seq<char>>
    decreases ls.len(),
{
    if ls.len() == 0 {
        None
    } else {
        match first_located(probe, ls.drop_last()) {
            Some(p) => Some(p),
            None => ls.last().locate_spec(probe),
        }
    }
}

/// The strategies, in the order they are tried.
pub fn bus_locators() -> (r: Vec<BusLocator>)
    ensures
        r@ == locator_order(),
{
    let mut r: Vec<BusLocator> = Vec::new();
    r.push(BusLocator::AmdSubdirectory);
    r.push(BusLocator::AmdDdcSymlink);
    r.push(BusLocator::IntelI2cDev);
    assert(r@ =~= locator_order());
    r
}

/// The device path of an output's I2C bus: the result of the first
/// strategy that finds one, or `DeviceNotFound` when none does.
pub fn locate_bus(probe: &OutputProbe) -> (r: Result<String, BrightnessError>)
    ensures
        match first_located(*probe, locator_order()) {
            Some(p) => r is Ok && r->Ok_0@ == p,
            None => r == Err::<String, BrightnessError>(BrightnessError::DeviceNotFound),
        },
{
    let locators = bus_locators();
    let ghost ls = locator_order();
    let mut i: usize = 0;
    while i < locators.len()
        invariant
            locators@ == ls,
            ls == locator_order(),
            i <= ls.len(),
            first_located(*probe, ls.subrange(0, i as int)) is None,
        decreases locators.len() - i,
    {
        let found = locators[i].try_locate(probe);
        assert(ls.subrange(0, i + 1).drop_last() =~= ls.subrange(0, i as int));
        match found {
            Some(p) => {
                proof {
                    lemma_first_located_prefix(*probe, ls, i + 1);
                }
                return Ok(p);
            },
            None => {},
        }
        i = i + 1;
    }
    assert(ls =~= ls.subrange(0, ls.len() as int));
    Err(BrightnessError::DeviceNotFound)
}

proof fn lemma_first_located_prefix(probe: OutputProbe, ls: Seq<BusLocator>, n: int)
    requires
        0 <= n <= ls.len(),
        first_located(probe, ls.subrange(0, n)) is Some,
    ensures
        first_located(probe, ls) == first_located(probe, ls.subrange(0, n)),
    decreases ls.len() - n,
{
    if n < ls.len() {
        assert(ls.subrange(0, n + 1).drop_last() =~= ls.subrange(0, n));
        lemma_first_located_prefix(probe, ls, n + 1);
    } else {
        assert(ls =~= ls.subrange(0, n));
    }
}

/// Strategies are tried in a fixed order and the first success wins: when
/// the output directory holds an `i2c-N` entry, the bus is found from it,
/// whatever the `ddc` link and the `ddc/i2c-dev` directory hold.
pub proof fn lemma_subdirectory_strategy_wins(probe: OutputProbe)
    requires
        BusLocator::AmdSubdirectory.locate_spec(probe) is Some,
    ensures
        first_located(probe, locator_order()) == BusLocator::AmdSubdirectory.locate_spec(probe),
{
    let ls = locator_order();
    let one = ls.drop_last().drop_last();
    assert(one.drop_last() =~= Seq::<BusLocator>::empty());
    assert(one.last() == BusLocator::AmdSubdirectory);
    assert(first_located(probe, one.drop_last()) is None);
    assert(first_located(probe, one) == BusLocator::AmdSubdirectory.locate_spec(probe));
    assert(first_located(probe, ls.drop_last()) == first_located(probe, one));
}

} // verus!
