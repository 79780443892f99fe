//! Combining the comments of several signals into one.
use vstd::prelude::*;
use vstd::string::*;
use crate::text::{decimal, decimal_string};
use crate::signal::time_signal::opt_str_view;

verus! {

/// The tag a joined signal gives the comment of its `position`-th input
/// (counting from 1): `signal<position>: <comment>`.
pub open spec fn tagged(position: nat, comment: Seq<char>) -> Seq<char> {
    "signal"@ + decimal(position) + ": "@ + comment
}

/// The tagged comments of the inputs that have one, in input order.
pub open spec fn tagged_comments(comments: Seq<Option<Seq<char>>>) -> Seq<Seq<char>>
    decreases comments.len(),
{
    if comments.len() == 0 {
        seq![]
    } else {
        let earlier = tagged_comments(comments.drop_last());
        match comments.last() {
            Some(c) => earlier.push(tagged(comments.len(), c)),
            None => earlier,
        }
    }
}

/// `parts` joined with `sep` between neighbours.
pub open spec fn joined(parts: Seq<Seq<char>>, sep: Seq<char>) -> Seq<char>
    decreases parts.len(),
{
    if parts.len() == 0 {
        seq![]
    } else if parts.len() == 1 {
        parts[0]
    } else {
        joined(parts.drop_last(), sep) + sep + parts.last()
    }
}

/// The comment of a signal joined from inputs with these comments: the tagged
/// comments joined by ` | `, or none when no input has a comment.
pub open spec fn combined_comment(comments: Seq<Option<Seq<char>>>) -> Option<Seq<char>> {
    let parts = tagged_comments(comments);
    if parts.len() == 0 {
        None
    } else {
        Some(joined(parts, " | "@))
    }
}

/// The texts of a list of optional comments.
pub open spec fn comment_views(comments: Seq<Option<&str>>) -> Seq<Option<Seq<char>>> {
    comments.map_values(|c: Option<&str>| opt_str_view(c))
}

/// Builds the comment of a joined signal from the comments of its inputs.
pub fn combine_comments(comments: &Vec<Option<&str>>) -> (r: Option<String>)
    ensures
        match r {
            Some(s) => combined_comment(comment_views(comments@)) == Some(s@),
            None => combined_comment(comment_views(comments@)) is None,
        },
{
    let n = comments.len();
    let mut out = String::new();
    let mut count: usize = 0;
    let mut i: usize = 0;
    proof {
        reveal_strlit("signal");
        reveal_strlit(": ");
        reveal_strlit(" | ");
    }
    while i < n
        invariant
            n == comments@.len(),
            i <= n,
            count == tagged_comments(comment_views(comments@).take(i as int)).len(),
            count <= i,
            count == 0 ==> out@ == Seq::<char>::empty(),
            count > 0 ==> out@ == joined(tagged_comments(comment_views(comments@).take(i as int)), " | "@),
        decreases n - i,
    {
        let ghost views = comment_views(comments@);
        assert(views.take(i + 1).drop_last() =~= views.take(i as int));
        assert(views.take(i + 1).last() == views[i as int]);
        match comments[i] {
            Some(text) => {
                let number = decimal_string(i + 1);
                let piece = String::from_str("signal").concat(number.as_str()).concat(": ").concat(text);
                assert(piece@ == tagged((i + 1) as nat, text@));
                let ghost prev = tagged_comments(views.take(i as int));
                assert(views[i as int] == Some(text@));
                assert(tagged_comments(views.take(i + 1)) == prev.push(piece@));
                assert(prev.push(piece@).drop_last() =~= prev);
                if count > 0 {
                    out.append(" | ");
                    out.append(piece.as_str());
                    assert(joined(prev.push(piece@), " | "@) == joined(prev, " | "@) + " | "@ + piece@);
                } else {
                    out.append(piece.as_str());
                    assert(prev.push(piece@) =~= seq![piece@]);
                }
                count = count + 1;
                assert(out@ =~= joined(tagged_comments(views.take(i + 1)), " | "@));
            },
            None => {
                assert(views[i as int] is None);
                assert(tagged_comments(views.take(i + 1)) == tagged_comments(views.take(i as int)));
            },
        }
        i = i + 1;
    }
    assert(comment_views(comments@).take(n as int) =~= comment_views(comments@));
    if count == 0 {
        None
    } else {
        Some(out)
    }
}

} // verus!
