//! Conversions with ffmpeg: the output file, the command line, and the times
//! that ffmpeg reports while it works.

use vstd::prelude::*;
use crate::paths::{
    extension_of_name, is_portable_path, path_extension, path_file_stem, path_parent, portable_file_name,
    portable_parent, stem_of_name,
};
use crate::text::{
    contains, find, find_exec, lemma_find, lemma_split_on_nonempty, split_exec, split_on, starts_with,
    to_chars, trim,
    trim_to_string, from_chars,
};
use crate::ytdlp::arg_texts;
use vstd::slice::slice_subrange;

verus! {

broadcast use vstd::string::group_string_axioms;

// ---------------------------------------------------------------------------
// Output file and command line
// ---------------------------------------------------------------------------

/// `c` in ASCII lower case.
pub open spec fn ascii_lower(c: char) -> char {
    if 'A' <= c && c <= 'Z' {
        ((c as u32) + 32) as char
    } else {
        c
    }
}

/// `a` and `b` are equal up to ASCII case (as `str::eq_ignore_ascii_case`).
pub open spec fn eq_ignore_ascii_case(a: Seq<char>, b: Seq<char>) -> bool {
    a.len() == b.len() && forall|i: int| 0 <= i < a.len() ==> ascii_lower(a[i]) == ascii_lower(b[i])
}

fn ascii_lower_exec(c: char) -> (r: char)
    ensures
        r == ascii_lower(c),
{
    if 'A' <= c && c <= 'Z' {
        ((c as u32) + 32) as u8 as char
    } else {
        c
    }
}

/// Whether `a` and `b` are equal up to ASCII case.
pub fn eq_ignore_ascii_case_exec(a: &str, b: &str) -> (r: bool)
    ensures
        r == eq_ignore_ascii_case(a@, b@),
{
    let x = to_chars(a);
    let y = to_chars(b);
    if x.len() != y.len() {
        return false;
    }
    let n = x.len();
    for i in 0..n
        invariant
            n == x@.len(),
            n == y@.len(),
            x@ == a@,
            y@ == b@,
            forall|j: int| 0 <= j < i ==> ascii_lower(x@[j]) == ascii_lower(y@[j]),
    {
        if ascii_lower_exec(x[i]) != ascii_lower_exec(y[i]) {
            return false;
        }
    }
    true
}

/// The file that converting `parent/stem.input_ext` to `format` writes: next
/// to the input, with the new extension, and `_converted` added to the name
/// when the extension would not change.
pub open spec fn output_path_spec(parent: Seq<char>, stem: Seq<char>, input_ext: Seq<char>, format: Seq<char>) -> Seq<char> {
    if eq_ignore_ascii_case(input_ext, format) {
        parent + "/"@ + stem + "_converted."@ + format
    } else {
        parent + "/"@ + stem + "."@ + format
    }
}

/// The file that converting `parent/stem.input_ext` to `format` writes.
pub fn output_path_for(parent: &str, stem: &str, input_ext: &str, format: &str) -> (r: String)
    ensures
        r@ == output_path_spec(parent@, stem@, input_ext@, format@),
{
    let mut out = String::from_str(parent);
    out.append("/");
    out.append(stem);
    if eq_ignore_ascii_case_exec(input_ext, format) {
        out.append("_converted.");
    } else {
        out.append(".");
    }
    out.append(format);
    out
}

/// The bitrate arguments for a quality name.
pub open spec fn bitrate_args(quality: Seq<char>) -> Seq<Seq<char>> {
    if quality == "low"@ {
        seq!["-b:a"@, "96k"@]
    } else if quality == "medium"@ {
        seq!["-b:a"@, "192k"@]
    } else if quality == "high"@ {
        seq!["-b:a"@, "320k"@]
    } else if quality == "max"@ {
        seq!["-b:a"@, "500k"@, "-b:v"@, "8000k"@]
    } else {
        Seq::empty()
    }
}

/// The arguments that convert `input` into `output` at `quality`.
pub open spec fn convert_args_spec(input: Seq<char>, quality: Seq<char>, output: Seq<char>) -> Seq<Seq<char>> {
    seq!["-hwaccel"@, "auto"@, "-i"@, input, "-threads"@, "0"@, "-y"@] + bitrate_args(quality) + seq![
        output,
    ]
}

/// The arguments that convert `input` into `output` at `quality`.
pub fn convert_args(input: &str, quality: &str, output: &str) -> (r: Vec<String>)
    ensures
        arg_texts(r@) == convert_args_spec(input@, quality@, output@),
{
    let mut args: Vec<String> = Vec::new();
    args.push(String::from_str("-hwaccel"));
    args.push(String::from_str("auto"));
    args.push(String::from_str("-i"));
    args.push(String::from_str(input));
    args.push(String::from_str("-threads"));
    args.push(String::from_str("0"));
    args.push(String::from_str("-y"));
    let ghost base = arg_texts(args@);
    let q = String::from_str(quality);
    if q == String::from_str("low") {
        args.push(String::from_str("-b:a"));
        args.push(String::from_str("96k"));
    } else if q == String::from_str("medium") {
        args.push(String::from_str("-b:a"));
        args.push(String::from_str("192k"));
    } else if q == String::from_str("high") {
        args.push(String::from_str("-b:a"));
        args.push(String::from_str("320k"));
    } else if q == String::from_str("max") {
        args.push(String::from_str("-b:a"));
        args.push(String::from_str("500k"));
        args.push(String::from_str("-b:v"));
        args.push(String::from_str("8000k"));
    }
    let ghost with_rate = arg_texts(args@);
    args.push(String::from_str(output));
    proof {
        assert(base =~= seq!["-hwaccel"@, "auto"@, "-i"@, input@, "-threads"@, "0"@, "-y"@]);
        assert(with_rate =~= base + bitrate_args(quality@));
        assert(arg_texts(args@) =~= convert_args_spec(input@, quality@, output@));
    }
    args
}

/// What a conversion will do: the name shown for it, the file it writes, and
/// ffmpeg's arguments.
#[derive(Debug)]
pub struct ConvertPlan {
    pub stem: String,
    pub output_path: String,
    pub args: Vec<String>,
}

/// The conversion of `input` to `format` at `quality`, given what the
/// platform's path rules take from `input`: its file name without extension
/// (`"output"` when there is none), its directory (`"."` when there is none)
/// and its extension (none when there is none).
pub fn plan_conversion_with(
    input: &str,
    format: &str,
    quality: &str,
    stem: Option<String>,
    parent: Option<String>,
    ext: Option<String>,
) -> (r: ConvertPlan)
    ensures
        r.stem@ == (match stem {
            Some(s) => s@,
            None => "output"@,
        }),
        r.output_path@ == output_path_spec(
            match parent {
                Some(p) => p@,
                None => "."@,
            },
            r.stem@,
            match ext {
                Some(e) => e@,
                None => Seq::empty(),
            },
            format@,
        ),
        arg_texts(r.args@) == convert_args_spec(input@, quality@, r.output_path@),
{
    let stem = match stem {
        Some(s) => s,
        None => String::from_str("output"),
    };
    let parent = match parent {
        Some(p) => p,
        None => String::from_str("."),
    };
    let ext = match ext {
        Some(e) => e,
        None => String::new(),
    };
    let output_path = output_path_for(parent.as_str(), stem.as_str(), ext.as_str(), format);
    let args = convert_args(input, quality, output_path.as_str());
    ConvertPlan { stem, output_path, args }
}

/// The conversion of `input` to `format` at `quality`.  The file name, its
/// directory and its extension are taken from `input` by the platform's path
/// rules (falling back to `"output"`, `"."` and no extension).  For a path
/// made of portable names the result is exact: the stem and extension of its
/// last name and its parent, as std documents them.  For any other path, the
/// directory used is one that the input's text begins with (or `"."`), the
/// stem a piece of the input (or `"output"`), the extension one that follows
/// a `.` in the input (or none).
pub fn plan_conversion(input: &str, format: &str, quality: &str) -> (r: ConvertPlan)
    ensures
        exists|parent: Seq<char>, ext: Seq<char>|
            {
                &&& starts_with(input@, parent) || parent == "."@
                &&& ext.len() == 0 || contains(input@, "."@ + ext)
                &&& r.output_path@ == output_path_spec(parent, r.stem@, ext, format@)
            },
        contains(input@, r.stem@) || r.stem@ == "output"@,
        is_portable_path(input@) ==> {
            &&& r.stem@ == stem_of_name(portable_file_name(input@))
            &&& r.output_path@ == output_path_spec(
                portable_parent(input@),
                r.stem@,
                match extension_of_name(portable_file_name(input@)) {
                    Some(e) => e,
                    None => Seq::empty(),
                },
                format@,
            )
        },
        arg_texts(r.args@) == convert_args_spec(input@, quality@, r.output_path@),
{
    let stem = path_file_stem(input);
    let parent = path_parent(input);
    let ext = path_extension(input);
    let ghost pv = match crate::models::opt_text(parent) {
        Some(p) => p,
        None => "."@,
    };
    let ghost ev = match crate::models::opt_text(ext) {
        Some(e) => e,
        None => Seq::<char>::empty(),
    };
    let r = plan_conversion_with(input, format, quality, stem, parent, ext);
    assert(r.output_path@ == output_path_spec(pv, r.stem@, ev, format@));
    r
}

// ---------------------------------------------------------------------------
// Reported times
// ---------------------------------------------------------------------------

/// The total length on a line that reports it: after `"Duration:"`, up to the
/// first ',' of the trimmed rest, trimmed.
pub open spec fn duration_text_spec(line: Seq<char>) -> Option<Seq<char>> {
    match find(line, "Duration:"@) {
        Some(p) => Some(trim(split_on(trim(line.subrange(p + 9, line.len() as int)), ',')[0])),
        None => None,
    }
}

/// The total length that ffmpeg reports on `line`, as text.
pub fn duration_text(line: &str) -> (r: Option<String>)
    ensures
        crate::models::opt_text(r) == duration_text_spec(line@),
{
    proof {
        reveal_strlit("Duration:");
    }
    let l = to_chars(line);
    let pat = to_chars("Duration:");
    match find_exec(l.as_slice(), pat.as_slice()) {
        Some(p) => {
            proof {
                lemma_find(l@, "Duration:"@);
            }
            let len = l.len();
            assert(len == l@.len() && p + 9 <= len);
            let rest = slice_subrange(l.as_slice(), p + 9, l.len());
            let trimmed = crate::text::trim_chars(rest);
            let pieces = split_exec(trimmed.as_slice(), ',');
            proof {
                lemma_split_on_nonempty(trimmed@, ',');
                assert(pieces@.map_values(|x: Vec<char>| x@)[0] == pieces@[0]@);
            }
            Some(trim_to_string(pieces[0].as_slice()))
        },
        None => None,
    }
}

/// The characters of `s` up to the first space, carriage return or line feed.
pub open spec fn until_break(s: Seq<char>) -> Seq<char>
    decreases s.len(),
{
    if s.len() == 0 || s[0] == ' ' || s[0] == '\r' || s[0] == '\n' {
        Seq::empty()
    } else {
        seq![s[0]] + until_break(s.drop_first())
    }
}

/// The position reached on a line that reports it: what follows `"time="` up
/// to the next space or line break.
pub open spec fn time_text_spec(line: Seq<char>) -> Option<Seq<char>> {
    match find(line, "time="@) {
        Some(p) => Some(until_break(line.subrange(p + 5, line.len() as int))),
        None => None,
    }
}

/// The position that ffmpeg reports on `line`, as text.
pub fn time_text(line: &str) -> (r: Option<String>)
    ensures
        crate::models::opt_text(r) == time_text_spec(line@),
{
    proof {
        reveal_strlit("time=");
    }
    let l = to_chars(line);
    let pat = to_chars("time=");
    match find_exec(l.as_slice(), pat.as_slice()) {
        Some(p) => {
            proof {
                lemma_find(l@, "time="@);
            }
            let len = l.len();
            assert(len == l@.len() && p + 5 <= len);
            let start = p + 5;
            let n = l.len();
            let mut end = start;
            let ghost tail = l@.subrange(start as int, n as int);
            assert(tail.subrange(0, 0) =~= Seq::<char>::empty());
            while end < n && l[end] != ' ' && l[end] != '\r' && l[end] != '\n'
                invariant
                    start <= end <= n,
                    n == l@.len(),
                    tail == l@.subrange(start as int, n as int),
                    until_break(tail) == l@.subrange(start as int, end as int) + until_break(
                        l@.subrange(end as int, n as int),
                    ),
                decreases n - end,
            {
                let ghost rest = l@.subrange(end as int, n as int);
                assert(rest.drop_first() =~= l@.subrange(end + 1, n as int));
                assert(l@.subrange(start as int, end + 1) =~= l@.subrange(start as int, end as int)
                    + seq![l@[end as int]]);
                end = end + 1;
            }
            let ghost rest = l@.subrange(end as int, n as int);
            assert(until_break(rest) =~= Seq::<char>::empty());
            assert(l@.subrange(start as int, end as int) + Seq::<char>::empty() =~= l@.subrange(
                start as int,
                end as int,
            ));
            Some(crate::text::slice_to_string(l.as_slice(), start, end))
        },
        None => None,
    }
}

/// The hours, minutes and seconds fields of `HH:MM:SS.ms`: the pieces between
/// ':' when there are exactly three.
pub open spec fn time_fields_spec(s: Seq<char>) -> Option<(Seq<char>, Seq<char>, Seq<char>)> {
    let p = split_on(s, ':');
    if p.len() == 3 {
        Some((p[0], p[1], p[2]))
    } else {
        None
    }
}

/// The hours, minutes and seconds fields of `HH:MM:SS.ms`.
pub fn time_fields(s: &str) -> (r: Option<(String, String, String)>)
    ensures
        match r {
            Some((h, m, sec)) => time_fields_spec(s@) == Some((h@, m@, sec@)),
            None => time_fields_spec(s@) is None,
        },
{
    let c = to_chars(s);
    let pieces = split_exec(c.as_slice(), ':');
    if pieces.len() == 3 {
        proof {
            assert(pieces@.map_values(|x: Vec<char>| x@)[0] == pieces@[0]@);
            assert(pieces@.map_values(|x: Vec<char>| x@)[1] == pieces@[1]@);
            assert(pieces@.map_values(|x: Vec<char>| x@)[2] == pieces@[2]@);
        }
        Some((
            from_chars(pieces[0].as_slice()),
            from_chars(pieces[1].as_slice()),
            from_chars(pieces[2].as_slice()),
        ))
    } else {
        None
    }
}

} // verus!
