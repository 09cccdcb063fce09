//! Where a rendered frame is saved: a file named after the moment of saving.

use vstd::prelude::*;
use vstd::string::StrSliceExecFns;
use vstd::string::StringExecFns;

verus! {

/// The directory that saved frames go to.
pub const OUTPUT_DIR: &'static str = "img";

/// The name of that directory, letter by letter.
pub open spec fn output_dir() -> Seq<char> {
    seq!['i', 'm', 'g']
}

/// What follows the stem in a file's name.
pub open spec fn extension() -> Seq<char> {
    seq!['.', 'p', 'n', 'g']
}

/// A colon has no place in a file's name: a hyphen stands for it.
pub open spec fn without_colon(c: char) -> char {
    if c == ':' {
        '-'
    } else {
        c
    }
}

/// Whether `k` is where the stem of `timestamp` ends: at its first full
/// stop, or at its end if it has none.
pub open spec fn is_stem_end(timestamp: Seq<char>, k: int) -> bool {
    &&& 0 <= k <= timestamp.len()
    &&& forall|j: int| 0 <= j < k ==> timestamp[j] != '.'
    &&& k < timestamp.len() ==> timestamp[k] == '.'
}

/// Where the stem of `timestamp` ends.
pub open spec fn stem_end(timestamp: Seq<char>) -> int {
    choose|k: int| is_stem_end(timestamp, k)
}

/// The file name for a frame saved at `timestamp`: the timestamp up to its
/// first full stop (which cuts off the fraction of the second), each colon
/// turned into a hyphen, and `.png` behind it.
pub open spec fn file_name_of(timestamp: Seq<char>) -> Seq<char> {
    Seq::new(stem_end(timestamp) as nat, |i: int| without_colon(timestamp[i])) + extension()
}

/// The stem of a timestamp ends in one place only.
pub proof fn lemma_stem_end_is_unique(timestamp: Seq<char>, k: int)
    requires
        is_stem_end(timestamp, k),
    ensures
        stem_end(timestamp) == k,
{
    let chosen = stem_end(timestamp);
    assert(is_stem_end(timestamp, chosen));
    if chosen < k {
        assert(timestamp[chosen] != '.');
    }
    if k < chosen {
        assert(timestamp[k] != '.');
    }
}

/// The file name for a frame saved at `timestamp`.
pub fn file_name_for(timestamp: &str) -> (name: String)
    ensures
        name@ == file_name_of(timestamp@),
{
    let len: usize = timestamp.unicode_len();
    let mut name = String::new();
    let mut i: usize = 0;
    while i < len && timestamp.get_char(i) != '.'
        invariant
            i <= len,
            len == timestamp@.len(),
            forall|j: int| 0 <= j < i ==> timestamp@[j] != '.',
            name@ == Seq::new(i as nat, |j: int| without_colon(timestamp@[j])),
        decreases len - i,
    {
        let ghost before = name@;
        if timestamp.get_char(i) == ':' {
            proof {
                reveal_strlit("-");
            }
            name.append("-");
            assert(name@ =~= before.push('-'));
        } else {
            name.append(timestamp.substring_char(i, i + 1));
            assert(name@ =~= before.push(timestamp@[i as int]));
        }
        i += 1;
        assert(name@ =~= Seq::new(i as nat, |j: int| without_colon(timestamp@[j])));
    }
    proof {
        lemma_stem_end_is_unique(timestamp@, i as int);
        reveal_strlit(".png");
        assert(".png"@ =~= extension());
    }
    name.append(".png");
    name
}

/// The moment of the call as text, by chrono's `Utc::now` and the `Display`
/// of its `DateTime`. Nothing is claimed of the text: it depends on the clock.
#[verifier::external_body]
fn utc_now_text() -> (text: String) {
    chrono::Utc::now().to_string()
}

/// A file name for a frame saved now. It is the file name of some timestamp:
/// so it ends in `.png`, and holds neither a colon nor a full stop before
/// that.
pub fn get_new_filename() -> (name: String)
    ensures
        exists|timestamp: Seq<char>| name@ == #[trigger] file_name_of(timestamp),
{
    let timestamp = utc_now_text();
    file_name_for(timestamp.as_str())
}

/// The path of the file `file_name` in the output directory.
pub fn image_path(file_name: &str) -> (path: String)
    ensures
        path@ == output_dir() + seq!['/'] + file_name@,
{
    let mut path = String::from_str(OUTPUT_DIR);
    proof {
        reveal_strlit("img");
        assert(OUTPUT_DIR@ =~= output_dir());
        reveal_strlit("/");
        assert("/"@ =~= seq!['/']);
    }
    path.append("/");
    path.append(file_name);
    path
}

} // verus!
