//! Star system view: planet appearance classes, marker sizes, numerals and
//! the labels of systems and planets.

use vstd::prelude::*;
use vstd::string::{StrSliceExecFns, StringExecFns};
use crate::text::same_text;

verus! {

/// Planet type visual appearance.
#[derive(Clone, Copy, Debug, PartialEq, Eq, Structural)]
pub enum PlanetVisual {
    /// Gray/brown.
    Rocky,
    /// Red/orange with glow.
    Volcanic,
    /// Blue with white clouds.
    Oceanic,
    /// Tan/yellow.
    Desert,
    /// Green with blue.
    Lush,
    /// White/light blue.
    Ice,
    /// Striped bands.
    Gas,
}

/// Appearance of a planet with surface type `id`.
pub open spec fn visual_of(id: Seq<char>) -> PlanetVisual {
    if id == "eden"@ || id == "congenial"@ || id == "primordial"@ {
        PlanetVisual::Lush
    } else if id == "mineral"@ || id == "supermineral"@ {
        PlanetVisual::Rocky
    } else if id == "tycoon"@ {
        PlanetVisual::Desert
    } else if id == "husk"@ {
        PlanetVisual::Volcanic
    } else if id == "gas_giant"@ {
        PlanetVisual::Gas
    } else {
        PlanetVisual::Rocky
    }
}

impl PlanetVisual {
    /// Appearance of a planet by its surface type identifier; unknown types
    /// look rocky.
    pub fn from_surface_type(surface_id: &str) -> (r: Self)
        ensures
            r == visual_of(surface_id@),
    {
        if same_text(surface_id, "eden") || same_text(surface_id, "congenial") || same_text(
            surface_id,
            "primordial",
        ) {
            PlanetVisual::Lush
        } else if same_text(surface_id, "mineral") || same_text(surface_id, "supermineral") {
            PlanetVisual::Rocky
        } else if same_text(surface_id, "tycoon") {
            PlanetVisual::Desert
        } else if same_text(surface_id, "husk") {
            PlanetVisual::Volcanic
        } else if same_text(surface_id, "gas_giant") {
            PlanetVisual::Gas
        } else {
            PlanetVisual::Rocky
        }
    }
}

/// Marker size, in pixels, of a planet with `surface_slots` surface slots.
pub open spec fn marker_size(surface_slots: int) -> int {
    if surface_slots <= 10 {
        20
    } else if surface_slots <= 30 {
        30
    } else if surface_slots <= 50 {
        40
    } else {
        50
    }
}

/// Marker size, in pixels, of a planet: larger planets get larger markers.
pub fn planet_marker_size(surface_slots: usize) -> (r: u32)
    ensures
        r == marker_size(surface_slots as int),
{
    if surface_slots <= 10 {
        20
    } else if surface_slots <= 30 {
        30
    } else if surface_slots <= 50 {
        40
    } else {
        50
    }
}

/// Roman numeral of `n` for `1 <= n <= 10`, `?` otherwise.
pub open spec fn roman(n: int) -> Seq<char> {
    if n == 1 {
        "I"@
    } else if n == 2 {
        "II"@
    } else if n == 3 {
        "III"@
    } else if n == 4 {
        "IV"@
    } else if n == 5 {
        "V"@
    } else if n == 6 {
        "VI"@
    } else if n == 7 {
        "VII"@
    } else if n == 8 {
        "VIII"@
    } else if n == 9 {
        "IX"@
    } else if n == 10 {
        "X"@
    } else {
        "?"@
    }
}

/// Convert number to Roman numerals for planet names.
pub fn to_roman(n: usize) -> (r: &'static str)
    ensures
        r@ == roman(n as int),
{
    match n {
        1 => "I",
        2 => "II",
        3 => "III",
        4 => "IV",
        5 => "V",
        6 => "VI",
        7 => "VII",
        8 => "VIII",
        9 => "IX",
        10 => "X",
        _ => "?",
    }
}

/// `s` with every occurrence of `pat`, found from left to right without
/// overlaps, replaced by `rep`.
pub open spec fn replace_all(s: Seq<char>, pat: Seq<char>, rep: Seq<char>) -> Seq<char>
    decreases s.len(),
{
    if s.len() == 0 {
        Seq::empty()
    } else if 0 < pat.len() <= s.len() && s.subrange(0, pat.len() as int) == pat {
        rep + replace_all(s.subrange(pat.len() as int, s.len() as int), pat, rep)
    } else {
        seq![s[0]] + replace_all(s.subrange(1, s.len() as int), pat, rep)
    }
}

/// Whether `pat` occurs in `s` at character position `i`.
fn occurs_at(s: &str, n: usize, pat: &str, m: usize, i: usize) -> (r: bool)
    requires
        n == s@.len(),
        m == pat@.len(),
        i <= n,
    ensures
        r == (m <= n - i && s@.subrange(i as int, i + m) == pat@),
{
    if m > n - i {
        return false;
    }
    let mut k: usize = 0;
    while k < m
        invariant
            k <= m,
            m <= n - i,
            n == s@.len(),
            m == pat@.len(),
            forall|j: int| 0 <= j < k ==> s@[i + j] == pat@[j],
        decreases m - k,
    {
        if s.get_char(i + k) != pat.get_char(k) {
            proof {
                assert(s@.subrange(i as int, i + m)[k as int] != pat@[k as int]);
            }
            return false;
        }
        k = k + 1;
    }
    proof {
        assert(s@.subrange(i as int, i + m) =~= pat@);
    }
    true
}

/// `s` with every occurrence of the nonempty `pat` replaced by `rep`.
fn replace_text(s: &str, pat: &str, rep: &str) -> (r: String)
    requires
        pat@.len() > 0,
    ensures
        r@ == replace_all(s@, pat@, rep@),
{
    let n = s.unicode_len();
    let m = pat.unicode_len();
    let mut out = String::new();
    let mut i: usize = 0;
    proof {
        assert(s@.subrange(0, n as int) =~= s@);
    }
    while i < n
        invariant
            i <= n,
            n == s@.len(),
            m == pat@.len(),
            m > 0,
            out@ + replace_all(s@.subrange(i as int, n as int), pat@, rep@) == replace_all(s@, pat@, rep@),
        decreases n - i,
    {
        let ghost rest = s@.subrange(i as int, n as int);
        let ghost before = out@;
        if occurs_at(s, n, pat, m, i) {
            out.append(rep);
            proof {
                assert(rest.subrange(0, m as int) =~= s@.subrange(i as int, i + m));
                assert(rest.subrange(m as int, rest.len() as int) =~= s@.subrange(i + m, n as int));
                assert(replace_all(rest, pat@, rep@) == rep@ + replace_all(s@.subrange(i + m, n as int), pat@, rep@));
                assert(out@ + replace_all(s@.subrange(i + m, n as int), pat@, rep@) =~= before + (rep@
                    + replace_all(s@.subrange(i + m, n as int), pat@, rep@)));
            }
            i = i + m;
        } else {
            let one = s.substring_char(i, i + 1);
            out.append(one);
            proof {
                assert(rest.subrange(0, m as int) =~= s@.subrange(i as int, i + m) || m > rest.len());
                assert(rest.subrange(1, rest.len() as int) =~= s@.subrange(i + 1, n as int));
                assert(one@ =~= seq![rest[0]]);
                assert(replace_all(rest, pat@, rep@) == seq![rest[0]] + replace_all(s@.subrange(i + 1, n as int), pat@, rep@));
                assert(out@ + replace_all(s@.subrange(i + 1, n as int), pat@, rep@) =~= before + (seq![rest[0]]
                    + replace_all(s@.subrange(i + 1, n as int), pat@, rep@)));
            }
            i = i + 1;
        }
    }
    proof {
        assert(s@.subrange(n as int, n as int) =~= Seq::<char>::empty());
        assert(out@ + Seq::<char>::empty() =~= out@);
    }
    out
}

/// Label of the planet at position `index` (from zero) of a system: the
/// system's name without its `System-` prefixes (`Unknown System` when there
/// is no system), a space, and the planet's Roman numeral.
pub open spec fn planet_label_text(system_name: Option<Seq<char>>, index: int) -> Seq<char> {
    let name = match system_name {
        Some(n) => n,
        None => "Unknown System"@,
    };
    replace_all(name, "System-"@, Seq::empty()) + " "@ + roman(index + 1)
}

/// Label of the planet at position `index` (from zero) of the system named
/// `system_name`, if there is such a system.
pub fn planet_label(system_name: Option<&str>, index: usize) -> (r: String)
    requires
        index < usize::MAX,
    ensures
        r@ == planet_label_text(
            (match system_name {
                Some(n) => Some(n@),
                None => None,
            }),
            index as int,
        ),
{
    let name = match system_name {
        Some(n) => n,
        None => "Unknown System",
    };
    proof {
        reveal_strlit("System-");
        reveal_strlit("");
    }
    let mut out = replace_text(name, "System-", "");
    proof {
        assert(""@ =~= Seq::<char>::empty());
        assert(out@ == replace_all(name@, "System-"@, Seq::empty()));
    }
    out.append(" ");
    out.append(to_roman(index + 1));
    proof {
        match system_name {
            Some(n) => {
                assert(name@ == n@);
            },
            None => {
                assert(name@ == "Unknown System"@);
            },
        }
    }
    out
}

/// Title of a system's info panel: its name with each `System-` replaced
/// by `Icarus`, followed by ` I`.
pub fn system_title(name: &str) -> (r: String)
    ensures
        r@ == replace_all(name@, "System-"@, "Icarus"@) + " I"@,
{
    proof {
        reveal_strlit("System-");
    }
    let mut out = replace_text(name, "System-", "Icarus");
    out.append(" I");
    out
}

} // verus!
