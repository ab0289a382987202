use vstd::prelude::*;

use crate::request::opt_view;
use crate::text::{contains_seq, split_on, split_str, strings_view};

verus! {

/// The directory that holds build outputs; files under it are not sources.
pub const BUILD_DIR: &'static str = ".build";

/// A batch of changed file paths reported by the file watcher.
pub struct FileChangedEvent {
    pub files: Vec<String>,
}

impl FileChangedEvent {
    pub fn new(files: Vec<String>) -> (r: FileChangedEvent)
        ensures
            r.files == files,
    {
        FileChangedEvent { files }
    }
}

/// The last piece that names something, skipping empty and `.` pieces from
/// the end.
pub open spec fn last_named(pieces: Seq<Seq<char>>) -> Option<Seq<char>>
    decreases pieces.len(),
{
    if pieces.len() == 0 {
        None
    } else if pieces.last().len() == 0 || pieces.last() == "."@ {
        last_named(pieces.drop_last())
    } else {
        Some(pieces.last())
    }
}

/// The file name of a `/`-separated path, as `Path::file_name` takes it:
/// trailing separators and `.` components are ignored, and a path that ends
/// in `..` (or has no component left) names no file.
pub open spec fn file_name(p: Seq<char>) -> Option<Seq<char>> {
    match last_named(split_on(p, '/')) {
        Some(n) => if n == ".."@ {
            None
        } else {
            Some(n)
        },
        None => None,
    }
}

/// The extension of a file name: the text after its last `.`, where that dot
/// is not the name's first character.
pub open spec fn extension(name: Seq<char>) -> Option<Seq<char>> {
    let e = split_on(name, '.').last();
    if split_on(name, '.').len() >= 2 && name.len() > e.len() + 1 {
        Some(e)
    } else {
        None
    }
}

/// A change to this file calls for a rebuild: the project configuration, or a
/// TypeScript or JavaScript source.
pub open spec fn triggers_reload(p: Seq<char>) -> bool {
    match file_name(p) {
        Some(n) => n == "config.yml"@ || extension(n) == Some("ts"@) || extension(n) == Some(
            "js"@,
        ),
        None => false,
    }
}

/// The file name of a path.
pub fn file_name_of(path: &str) -> (r: Option<String>)
    ensures
        opt_view(r) == file_name(path@),
{
    let pieces = split_str(path, '/');
    let ghost ps = strings_view(pieces@);
    let dot = ".".to_owned();
    let dotdot = "..".to_owned();
    let mut i: usize = pieces.len();
    assert(ps.take(i as int) =~= ps);
    while i > 0
        invariant
            ps == strings_view(pieces@),
            ps == split_on(path@, '/'),
            i <= pieces@.len(),
            last_named(ps) == last_named(ps.take(i as int)),
            dot@ == "."@,
            dotdot@ == ".."@,
        decreases i,
    {
        assert(ps.take(i as int).drop_last() =~= ps.take(i - 1));
        assert(ps.take(i as int).last() == pieces@[i - 1]@);
        let p = &pieces[i - 1];
        if !p.as_str().is_empty() && !(*p == dot) {
            if *p == dotdot {
                return None;
            } else {
                return Some(p.clone());
            }
        }
        i = i - 1;
    }
    assert(ps.take(0) =~= Seq::<Seq<char>>::empty());
    None
}

fn last_piece(s: &str, sep: char) -> (r: String)
    ensures
        r@ == split_on(s@, sep).last(),
        split_on(s@, sep).len() >= 2 ==> s@.len() >= r@.len() + 1,
{
    proof {
        crate::text::lemma_split_on_nonempty(s@, sep);
        lemma_split_on_last_len(s@, sep);
    }
    let mut pieces = split_str(s, sep);
    let n = pieces.len();
    assert(pieces@[n - 1]@ == strings_view(pieces@)[n - 1]);
    pieces.swap_remove(n - 1)
}

proof fn lemma_split_on_last_len(s: Seq<char>, sep: char)
    ensures
        split_on(s, sep).len() >= 1,
        split_on(s, sep).last().len() <= s.len(),
        split_on(s, sep).len() >= 2 ==> s.len() >= split_on(s, sep).last().len() + 1,
    decreases s.len(),
{
    crate::text::lemma_split_on_nonempty(s, sep);
    if s.len() > 0 {
        lemma_split_on_last_len(s.drop_last(), sep);
    }
}

/// Whether a changed path calls for a rebuild.
pub fn is_reload_trigger(path: &str) -> (r: bool)
    ensures
        r == triggers_reload(path@),
{
    let name = match file_name_of(path) {
        Some(n) => n,
        None => {
            return false;
        },
    };
    if name == "config.yml".to_owned() {
        return true;
    }
    let pieces = split_str(name.as_str(), '.');
    let ext = last_piece(name.as_str(), '.');
    if pieces.len() >= 2 && name.as_str().unicode_len() > ext.as_str().unicode_len() + 1 {
        ext == "ts".to_owned() || ext == "js".to_owned()
    } else {
        false
    }
}

/// Whether a batch of changes calls for rebuilding and swapping the tenant's
/// code and routes.
pub fn needs_swap(event: &FileChangedEvent) -> (r: bool)
    ensures
        r == exists|i: int| 0 <= i < event.files@.len() && triggers_reload(#[trigger] event.files@[i]@),
{
    let mut i: usize = 0;
    while i < event.files.len()
        invariant
            i <= event.files@.len(),
            forall|j: int| 0 <= j < i ==> !triggers_reload(#[trigger] event.files@[j]@),
        decreases event.files.len() - i,
    {
        if is_reload_trigger(event.files[i].as_str()) {
            return true;
        }
        i = i + 1;
    }
    false
}

/// Whether a file's parent directory lies outside the build directory, that
/// is, its path does not contain `.build`.
pub fn outside_build_dir(parent: &str) -> (r: bool)
    ensures
        r == !contains_seq(parent@, BUILD_DIR@),
{
    let pat = BUILD_DIR.to_owned();
    let k = BUILD_DIR.unicode_len();
    let n = parent.unicode_len();
    proof {
        reveal_strlit(".build");
    }
    assert(k == 6);
    if n < k {
        assert forall|i: int| 0 <= i && i + k <= n implies #[trigger] parent@.subrange(i, i + BUILD_DIR@.len()) != BUILD_DIR@ by {}
        return true;
    }
    let mut i: usize = 0;
    while i <= n - k
        invariant
            k == BUILD_DIR@.len(),
            n == parent@.len(),
            pat@ == BUILD_DIR@,
            k <= n,
            k == 6,
            i <= n - k + 1,
            forall|j: int| 0 <= j < i ==> #[trigger] parent@.subrange(j, j + k) != BUILD_DIR@,
        decreases n - k + 1 - i,
    {
        if parent.substring_char(i, i + k).to_owned() == pat {
            return false;
        }
        i = i + 1;
    }
    true
}

/// The BLAKE3 digest of `data`, written as lowercase hexadecimal.
pub uninterp spec fn blake3_hex(data: Seq<u8>) -> Seq<char>;

/// A digit of lowercase hexadecimal.
pub open spec fn is_lower_hex(c: char) -> bool {
    ('0' <= c && c <= '9') || ('a' <= c && c <= 'f')
}

pub open spec fn all_lower_hex(s: Seq<char>) -> bool {
    forall|i: int| 0 <= i < s.len() ==> is_lower_hex(#[trigger] s[i])
}

/// Relies on `blake3::hash` and `blake3::Hash::to_hex`: the 32-byte digest of
/// the input as 64 digits from `0123456789abcdef`.
#[verifier::external_body]
fn blake3_hex_of(data: &[u8]) -> (r: String)
    ensures
        r@ == blake3_hex(data@),
        r@.len() == 64,
        all_lower_hex(r@),
{
    blake3::hash(data).to_hex().as_str().to_owned()
}

/// All the byte strings, one after the other.
pub open spec fn concat_all(files: Seq<Seq<u8>>) -> Seq<u8>
    decreases files.len(),
{
    if files.len() == 0 {
        Seq::empty()
    } else {
        concat_all(files.drop_last()) + files.last()
    }
}

pub open spec fn bytes_view(files: Seq<Vec<u8>>) -> Seq<Seq<u8>> {
    files.map_values(|f: Vec<u8>| f@)
}

/// The first `len` characters of `s`, or all of it when it is shorter.
pub open spec fn truncated(s: Seq<char>, len: nat) -> Seq<char> {
    if len < s.len() {
        s.take(len as int)
    } else {
        s
    }
}

/// Shortens a digest to at most `len` characters.
pub fn truncate_digest(digest: &str, len: usize) -> (r: String)
    ensures
        r@ == truncated(digest@, len as nat),
{
    let n = digest.unicode_len();
    if len < n {
        let s = digest.substring_char(0, len);
        assert(s@ =~= digest@.take(len as int));
        s.to_owned()
    } else {
        digest.to_owned()
    }
}

/// The content hash of a project: the BLAKE3 digest of its source files'
/// contents, in order, shortened to `len` hex digits.
pub fn calc_hash_for_files(files: &Vec<Vec<u8>>, len: usize) -> (r: String)
    requires
        concat_all(bytes_view(files@)).len() <= usize::MAX,
    ensures
        r@ == truncated(blake3_hex(concat_all(bytes_view(files@))), len as nat),
        r@.len() == if len < 64 {
            len as nat
        } else {
            64
        },
        all_lower_hex(r@),
{
    let mut data: Vec<u8> = Vec::new();
    let mut i: usize = 0;
    while i < files.len()
        invariant
            i <= files@.len(),
            concat_all(bytes_view(files@)).len() <= usize::MAX,
            data@ == concat_all(bytes_view(files@).take(i as int)),
        decreases files.len() - i,
    {
        proof {
            lemma_concat_prefix_len(bytes_view(files@), i as int + 1);
        }
        assert(bytes_view(files@).take(i + 1).drop_last() =~= bytes_view(files@).take(i as int));
        let f = &files[i];
        let ghost start = data@;
        let mut j: usize = 0;
        while j < f.len()
            invariant
                j <= f@.len(),
                data@ == start + f@.take(j as int),
                start.len() + f@.len() <= usize::MAX,
            decreases f.len() - j,
        {
            data.push(f[j]);
            assert(data@ =~= start + f@.take(j + 1));
            j = j + 1;
        }
        assert(f@.take(j as int) =~= f@);
        i = i + 1;
    }
    assert(bytes_view(files@).take(i as int) =~= bytes_view(files@));
    let digest = blake3_hex_of(data.as_slice());
    let r = truncate_digest(digest.as_str(), len);
    assert(forall|i: int| 0 <= i < r@.len() ==> r@[i] == digest@[i]);
    r
}

proof fn lemma_concat_prefix_len(files: Seq<Seq<u8>>, i: int)
    requires
        0 <= i <= files.len(),
    ensures
        concat_all(files.take(i)).len() <= concat_all(files).len(),
    decreases files.len(),
{
    if i < files.len() {
        assert(files.drop_last().take(i) =~= files.take(i));
        lemma_concat_prefix_len(files.drop_last(), i);
    } else {
        assert(files.take(i) =~= files);
    }
}

/// The project hash used to name build outputs: sixteen hex digits.
pub fn calc_project_hash(files: &Vec<Vec<u8>>) -> (r: String)
    requires
        concat_all(bytes_view(files@)).len() <= usize::MAX,
    ensures
        r@ == truncated(blake3_hex(concat_all(bytes_view(files@))), 16),
        r@.len() == 16,
        all_lower_hex(r@),
{
    calc_hash_for_files(files, 16)
}

} // verus!
