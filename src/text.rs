use vstd::prelude::*;

verus! {

/// `s` shortened for display: kept whole when it has fewer than `max_len` characters,
/// else its last `max_len - 3` characters after `"..."`, `max_len` characters in all.
pub open spec fn truncated(s: Seq<char>, max_len: nat) -> Seq<char> {
    if s.len() < max_len {
        s
    } else {
        "..."@ + s.subrange(s.len() - max_len + 3, s.len() as int)
    }
}

/// Shortens `s` to at most `max_len` characters, keeping its end (the file name of a
/// path) behind a leading `"..."`. A `max_len` below 3 leaves no room for the marker,
/// so it is accepted only for text that is kept whole.
pub fn truncate_to(s: &str, max_len: usize) -> (r: String)
    requires
        s@.len() < max_len || max_len >= 3,
    ensures
        r@ == truncated(s@, max_len as nat),
{
    let n = s.unicode_len();
    if n < max_len {
        s.to_owned()
    } else {
        String::from_str("...").concat(s.substring_char(n - max_len + 3, n))
    }
}

/// Whether a character stays in a compacted label.
pub open spec fn kept_in_label(c: char) -> bool {
    c != ' ' && c != '.'
}

/// `s` without its spaces and dots.
pub open spec fn compacted(s: Seq<char>) -> Seq<char>
    decreases s.len(),
{
    if s.len() == 0 {
        s
    } else if kept_in_label(s.last()) {
        compacted(s.drop_last()).push(s.last())
    } else {
        compacted(s.drop_last())
    }
}

/// A label with its spaces and dots removed, fit for a file name (`"1.5 x"` gives `"15x"`).
pub fn compact_label(s: &str) -> (r: String)
    ensures
        r@ == compacted(s@),
{
    let n = s.unicode_len();
    let mut out = String::new();
    let mut i: usize = 0;
    while i < n
        invariant
            n == s@.len(),
            i <= n,
            out@ == compacted(s@.subrange(0, i as int)),
        decreases n - i,
    {
        let c = s.get_char(i);
        proof {
            assert(s@.subrange(0, i + 1).drop_last() =~= s@.subrange(0, i as int));
        }
        if c != ' ' && c != '.' {
            let one = s.substring_char(i, i + 1);
            assert(one@ =~= seq![c]);
            out = out.concat(one);
            assert(out@ =~= compacted(s@.subrange(0, i + 1)));
        }
        i = i + 1;
    }
    assert(s@.subrange(0, n as int) =~= s@);
    out
}

/// The name of a run's output file: `<base>_<target>[_<scale>][_<freetext>].tif`.
/// The scale part is left out at unit scale, the free-text part when it is empty.
pub open spec fn output_name_of(
    base: Seq<char>,
    target: Seq<char>,
    scale: Seq<char>,
    unit_scale: bool,
    freetext: Seq<char>,
) -> Seq<char> {
    let drizzle = if unit_scale {
        Seq::empty()
    } else {
        "_"@ + compacted(scale)
    };
    let free = if freetext.len() == 0 {
        Seq::empty()
    } else {
        "_"@ + freetext
    };
    base + "_"@ + target + drizzle + free + ".tif"@
}

/// Assembles the output file name from the input's base name, the target's name, the
/// drizzle scale's label (and whether it is the unit scale) and the free text.
pub fn output_file_name(
    base: &str,
    target: &str,
    scale: &str,
    unit_scale: bool,
    freetext: &str,
) -> (r: String)
    ensures
        r@ == output_name_of(base@, target@, scale@, unit_scale, freetext@),
{
    let mut name = String::from_str(base).concat("_").concat(target);
    if !unit_scale {
        let compact = compact_label(scale);
        name = name.concat("_").concat(compact.as_str());
    }
    if !freetext.is_empty() {
        name = name.concat("_").concat(freetext);
    }
    name = name.concat(".tif");
    proof {
        let drizzle = if unit_scale {
            Seq::<char>::empty()
        } else {
            "_"@ + compacted(scale@)
        };
        let free = if freetext@.len() == 0 {
            Seq::<char>::empty()
        } else {
            "_"@ + freetext@
        };
        assert(name@ =~= base@ + "_"@ + target@ + drizzle + free + ".tif"@);
    }
    name
}

} // verus!
