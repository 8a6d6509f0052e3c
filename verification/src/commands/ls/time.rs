//! Modification times as `ls -l` shows them, cut from a `ctime`-style text
//! such as `Thu Jul  6 21:05:33 2023`.
use vstd::prelude::*;
use crate::constants::fallback::EPOCH_TIME;
use crate::text::{
    chars_of, pad_left, push_all, push_padded_left, split_char, split_on, split_whitespace,
    string_of, views, words,
};

verus! {

/// Month, day right-aligned in two columns, and hours and minutes:
/// `Jul  6 21:05`. Without a text with at least five words whose fourth has
/// a `:`, the fixed text `EPOCH_TIME`.
pub open spec fn mtime_text(ctime: Option<Seq<char>>) -> Seq<char> {
    match ctime {
        Some(s) => {
            let parts = words(s);
            if parts.len() >= 5 && split_on(parts[3], ':').len() >= 2 {
                let hm = split_on(parts[3], ':');
                parts[1] + seq![' '] + pad_left(parts[2], 2) + seq![' '] + hm[0] + seq![':'] + hm[1]
            } else {
                EPOCH_TIME@
            }
        },
        None => EPOCH_TIME@,
    }
}

/// The time column of `ls -l`, from the `ctime` text of a modification time
/// (`None` when there is none).
pub fn format_mtime(ctime: Option<&str>) -> (s: String)
    ensures
        s@ == mtime_text(
            match ctime {
                Some(c) => Some(c@),
                None => None,
            },
        ),
{
    if let Some(text) = ctime {
        let parts = split_whitespace(text);
        if parts.len() >= 5 {
            let hm = split_char(parts[3].as_str(), ':');
            assert(views(parts@)[3] == parts@[3]@);
            if hm.len() >= 2 {
                assert(views(parts@)[1] == parts@[1]@);
                assert(views(parts@)[2] == parts@[2]@);
                assert(views(hm@)[0] == hm@[0]@);
                assert(views(hm@)[1] == hm@[1]@);
                let mut out: Vec<char> = Vec::new();
                let month = chars_of(parts[1].as_str());
                let day = chars_of(parts[2].as_str());
                let hours = chars_of(hm[0].as_str());
                let minutes = chars_of(hm[1].as_str());
                push_all(&mut out, month.as_slice());
                out.push(' ');
                push_padded_left(&mut out, day.as_slice(), 2);
                out.push(' ');
                push_all(&mut out, hours.as_slice());
                out.push(':');
                push_all(&mut out, minutes.as_slice());
                assert(out@ =~= parts@[1]@ + seq![' '] + pad_left(parts@[2]@, 2) + seq![' ']
                    + hm@[0]@ + seq![':'] + hm@[1]@);
                return string_of(out.as_slice());
            }
        }
    }
    let v = chars_of(EPOCH_TIME);
    string_of(v.as_slice())
}

} // verus!
