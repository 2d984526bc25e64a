//! Names of the files that hold records and exported documents, and the
//! conversion of the comma-separated ingredient field of a recipe form.
use vstd::prelude::*;
use crate::recipe::texts;
use crate::text::{trim, chars_of, string_of, trim_bounds};

verus! {

/// `title` with every space replaced by an underscore.
pub open spec fn file_stem_spec(title: Seq<char>) -> Seq<char> {
    Seq::new(title.len(), |i: int| if title[i] == ' ' { '_' } else { title[i] })
}

/// The pieces of `s` between the occurrences of `sep`, in order.
pub open spec fn split_on(s: Seq<char>, sep: char) -> Seq<Seq<char>>
    decreases s.len(),
{
    if s.len() == 0 {
        seq![Seq::empty()]
    } else {
        let prev = split_on(s.drop_last(), sep);
        if s.last() == sep {
            prev.push(Seq::empty())
        } else {
            prev.update(prev.len() - 1, prev.last().push(s.last()))
        }
    }
}

/// The file stem under which a recipe titled `title` is stored.
pub fn file_stem(title: &str) -> (r: String)
    ensures
        r@ == file_stem_spec(title@),
{
    let v = chars_of(title);
    let mut r = String::new();
    let mut i: usize = 0;
    while i < v.len()
        invariant
            v@ == title@,
            i <= v@.len(),
            r@ == file_stem_spec(title@).take(i as int),
        decreases v@.len() - i,
    {
        if v[i] == ' ' {
            r.push('_');
        } else {
            r.push(v[i]);
        }
        assert(r@ =~= file_stem_spec(title@).take(i + 1));
        i += 1;
    }
    assert(file_stem_spec(title@).take(i as int) =~= file_stem_spec(title@));
    r
}

/// The name of the document exported for a recipe titled `title`.
pub fn pdf_file_name(title: &str) -> (r: String)
    ensures
        r@ == file_stem_spec(title@) + ".pdf"@,
{
    let mut r = file_stem(title);
    r.append(".pdf");
    r
}

/// The name of the record file of a recipe titled `title`.
pub fn record_file_name(title: &str) -> (r: String)
    ensures
        r@ == file_stem_spec(title@) + ".rec"@,
{
    let mut r = file_stem(title);
    r.append(".rec");
    r
}

/// The identifier of a record file: its name without the `.rec` extension.
/// Names with another extension, and the bare name `.rec`, identify nothing.
pub fn recipe_id_from_file_name(name: &str) -> (r: Option<String>)
    ensures
        r is Some <==> name@.len() > 4 && name@.skip(name@.len() - 4) == ".rec"@,
        r matches Some(id) ==> id@ + ".rec"@ == name@,
{
    proof {
        reveal_strlit(".rec");
    }
    let v = chars_of(name);
    let n = v.len();
    if n > 4 && v[n - 4] == '.' && v[n - 3] == 'r' && v[n - 2] == 'e' && v[n - 1] == 'c' {
        assert(name@.skip(n - 4) =~= ".rec"@);
        let id = string_of(&v, 0, n - 4);
        assert(id@ + ".rec"@ =~= name@);
        Some(id)
    } else {
        proof {
            if n > 4 && name@.skip(n - 4) == ".rec"@ {
                assert(name@.skip(n - 4)[0] == v@[n - 4]);
                assert(name@.skip(n - 4)[1] == v@[n - 3]);
                assert(name@.skip(n - 4)[2] == v@[n - 2]);
                assert(name@.skip(n - 4)[3] == v@[n - 1]);
            }
        }
        None
    }
}

/// The ingredients of a comma-separated list: the pieces between commas,
/// each trimmed, empty ones kept.
pub fn split_ingredient_list(text: &str) -> (r: Vec<String>)
    ensures
        texts(r@) == split_on(text@, ',').map_values(|p: Seq<char>| trim(p)),
{
    let v = chars_of(text);
    let mut r: Vec<String> = Vec::new();
    let mut start: usize = 0;
    let mut i: usize = 0;
    assert(v@.take(0) =~= Seq::<char>::empty());
    assert(split_on(v@.take(0), ',').drop_last().map_values(|p: Seq<char>| trim(p)) =~= Seq::<
        Seq<char>,
    >::empty());
    assert(texts(r@) =~= Seq::<Seq<char>>::empty());
    while i < v.len()
        invariant
            v@ == text@,
            start <= i <= v@.len(),
            split_on(v@.take(i as int), ',').len() >= 1,
            texts(r@) == split_on(v@.take(i as int), ',').drop_last().map_values(
                |p: Seq<char>| trim(p),
            ),
            split_on(v@.take(i as int), ',').last() == v@.subrange(start as int, i as int),
        decreases v@.len() - i,
    {
        let ghost prev = split_on(v@.take(i as int), ',');
        assert(v@.take(i + 1).drop_last() =~= v@.take(i as int));
        assert(v@.take(i + 1).last() == v@[i as int]);
        if v[i] == ',' {
            let (a, b) = trim_bounds(&v, start, i);
            let piece = string_of(&v, a, b);
            let ghost before = r@;
            r.push(piece);
            assert(split_on(v@.take(i + 1), ',') == prev.push(Seq::empty()));
            assert(prev.push(Seq::empty()).drop_last() =~= prev);
            assert(prev =~= prev.drop_last().push(prev.last()));
            assert(texts(r@) =~= texts(before).push(piece@));
            assert(prev.map_values(|p: Seq<char>| trim(p)) =~= prev.drop_last().map_values(
                |p: Seq<char>| trim(p),
            ).push(trim(prev.last())));
            i += 1;
            start = i;
            assert(v@.subrange(start as int, i as int) =~= Seq::<char>::empty());
        } else {
            let ghost next = prev.update(prev.len() - 1, prev.last().push(v@[i as int]));
            assert(split_on(v@.take(i + 1), ',') == next);
            assert(next.drop_last() =~= prev.drop_last());
            assert(v@.subrange(start as int, i + 1) =~= prev.last().push(v@[i as int]));
            i += 1;
        }
    }
    assert(v@.take(i as int) =~= v@);
    let ghost all = split_on(v@, ',');
    let (a, b) = trim_bounds(&v, start, i);
    let piece = string_of(&v, a, b);
    let ghost before = r@;
    r.push(piece);
    assert(texts(r@) =~= texts(before).push(piece@));
    assert(all =~= all.drop_last().push(all.last()));
    assert(all.map_values(|p: Seq<char>| trim(p)) =~= all.drop_last().map_values(
        |p: Seq<char>| trim(p),
    ).push(trim(all.last())));
    r
}

} // verus!
