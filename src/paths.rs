//! Where shader sources are found: locations relative to the program's
//! directory, written with `/` between parts.
use vstd::prelude::*;

verus! {

/// The parts of `s` between occurrences of `sep`, in order (an empty `s`
/// has one empty part).
pub open spec fn split_on(s: Seq<char>, sep: char) -> Seq<Seq<char>>
    decreases s.len(),
{
    if s.len() == 0 {
        seq![Seq::<char>::empty()]
    } else {
        let p = split_on(s.drop_last(), sep);
        if s.last() == sep {
            p.push(Seq::<char>::empty())
        } else {
            p.update(p.len() - 1, p.last().push(s.last()))
        }
    }
}

proof fn lemma_split_nonempty(s: Seq<char>, sep: char)
    ensures
        split_on(s, sep).len() >= 1,
    decreases s.len(),
{
    if s.len() > 0 {
        lemma_split_nonempty(s.drop_last(), sep);
    }
}

/// The views of a sequence of strings.
pub open spec fn views(v: Seq<String>) -> Seq<Seq<char>> {
    v.map_values(|p: String| p@)
}

/// Relies on `String::push`: appends one character.
#[verifier::external_body]
fn push_char(s: &mut String, c: char)
    ensures
        final(s)@ == old(s)@.push(c),
{
    s.push(c);
}

/// Relies on `String::push_str`: appends a string.
#[verifier::external_body]
fn push_str(s: &mut String, t: &str)
    ensures
        final(s)@ == old(s)@ + t@,
{
    s.push_str(t);
}

/// The path from `root_dir` to `location`, as its parts: `root_dir`, then
/// the parts of `location` between its `/` separators.
pub fn str_location_to_path(root_dir: &str, location: &str) -> (r: Vec<String>)
    ensures
        views(r@) == seq![root_dir@] + split_on(location@, '/'),
{
    let mut parts: Vec<String> = Vec::new();
    parts.push(root_dir.to_owned());
    let mut cur = String::new();
    let ghost text = location@;
    for c in it: location.chars()
        invariant
            it.seq() == text,
            views(parts@) + seq![cur@] == seq![root_dir@] + split_on(text.take(it.index() as int), '/'),
    {
        let ghost before = text.take(it.index() as int);
        let ghost after = text.take(it.index() + 1);
        let ghost pv = views(parts@);
        let ghost cv = cur@;
        proof {
            lemma_split_nonempty(before, '/');
            assert(c == text[it.index() as int]);
            assert(after.drop_last() =~= before);
            assert(after.last() == c);
        }
        if c == '/' {
            parts.push(cur);
            cur = String::new();
            proof {
                assert(views(parts@) =~= pv + seq![cv]);
                assert(views(parts@) + seq![cur@] =~= seq![root_dir@] + split_on(after, '/'));
            }
        } else {
            push_char(&mut cur, c);
            proof {
                let p = split_on(before, '/');
                let whole = seq![root_dir@] + p;
                assert(split_on(after, '/') == p.update(p.len() - 1, p.last().push(c)));
                assert((pv + seq![cv])[pv.len() as int] == whole[whole.len() - 1]);
                assert(cv == p.last());
                assert forall|i: int| 0 <= i < pv.len() implies pv[i] == whole[i] by {
                    assert((pv + seq![cv])[i] == whole[i]);
                }
                assert(views(parts@) == pv);
                assert(views(parts@) + seq![cur@] =~= seq![root_dir@] + split_on(after, '/'));
            }
        }
    }
    let ghost prev = views(parts@);
    parts.push(cur);
    proof {
        assert(text.take(text.len() as int) =~= text);
        assert(views(parts@) =~= prev + seq![cur@]);
    }
    parts
}

/// Location of the source of `shader` of the given stage (`vs` or `fs`).
pub open spec fn shader_location_spec(shader: Seq<char>, stage: Seq<char>) -> Seq<char> {
    "shaders/"@ + shader + "."@ + stage
}

/// Builds the location of the source of `shader` of the given stage.
pub fn shader_location(shader: &str, stage: &str) -> (r: String)
    ensures
        r@ == shader_location_spec(shader@, stage@),
{
    let mut r = "shaders/".to_owned();
    push_str(&mut r, shader);
    push_str(&mut r, ".");
    push_str(&mut r, stage);
    proof {
        reveal_strlit("shaders/");
        reveal_strlit(".");
    }
    r
}

} // verus!
