//! Naming of a batch: the zero-padded label of each frame, the directory and
//! image path it is written to, and the sidecar files copied beside it.
use vstd::prelude::*;
use vstd::string::StringExecFns;

verus! {

/// Frame counts above this get three-digit labels, the others two.
pub const TWO_DIGIT_LIMIT: u32 = 99;

/// The character of decimal digit `d`.
pub open spec fn digit_char(d: int) -> char {
    if d == 0 { '0' }
    else if d == 1 { '1' }
    else if d == 2 { '2' }
    else if d == 3 { '3' }
    else if d == 4 { '4' }
    else if d == 5 { '5' }
    else if d == 6 { '6' }
    else if d == 7 { '7' }
    else if d == 8 { '8' }
    else { '9' }
}

/// The decimal digits of `n`, most significant first, without leading zeros.
pub open spec fn decimal(n: nat) -> Seq<char>
    decreases n,
{
    if n < 10 {
        seq![digit_char(n as int)]
    } else {
        decimal(n / 10).push(digit_char((n % 10) as int))
    }
}

/// `width - k` zeros followed by the `k` digits of `n`, when `k < width`;
/// the digits alone otherwise.
pub open spec fn padded_decimal(n: nat, width: nat) -> Seq<char> {
    let digits = decimal(n);
    if digits.len() < width {
        Seq::new((width - digits.len()) as nat, |_i: int| '0') + digits
    } else {
        digits
    }
}

/// Digits of the labels in a batch of `count` frames.
pub open spec fn label_width(count: int) -> nat {
    if count > TWO_DIGIT_LIMIT { 3 } else { 2 }
}

/// The label of frame `index` in a batch of `count` frames.
pub open spec fn label_spec(index: nat, count: int) -> Seq<char> {
    padded_decimal(index, label_width(count))
}

fn digit_str(d: u32) -> (r: &'static str)
    requires
        d < 10,
    ensures
        r@ == seq![digit_char(d as int)],
{
    proof {
        reveal_strlit("0");
        reveal_strlit("1");
        reveal_strlit("2");
        reveal_strlit("3");
        reveal_strlit("4");
        reveal_strlit("5");
        reveal_strlit("6");
        reveal_strlit("7");
        reveal_strlit("8");
        reveal_strlit("9");
    }
    match d {
        0 => "0",
        1 => "1",
        2 => "2",
        3 => "3",
        4 => "4",
        5 => "5",
        6 => "6",
        7 => "7",
        8 => "8",
        _ => "9",
    }
}

fn decimal_string(n: u32) -> (r: String)
    ensures
        r@ == decimal(n as nat),
    decreases n,
{
    if n < 10 {
        String::from_str(digit_str(n))
    } else {
        let mut s = decimal_string(n / 10);
        s.append(digit_str(n % 10));
        s
    }
}

/// Digits of `n`: the length of `decimal(n)`.
fn digit_count(n: u32) -> (r: u32)
    ensures
        r == decimal(n as nat).len(),
        1 <= r <= n / 10 + 1,
    decreases n,
{
    proof {
        lemma_decimal_len_bound(n as nat);
    }
    if n < 10 {
        1
    } else {
        digit_count(n / 10) + 1
    }
}

proof fn lemma_decimal_len_bound(n: nat)
    ensures
        1 <= decimal(n).len(),
        n < 10 ==> decimal(n).len() == 1,
        n < 100 ==> decimal(n).len() <= 2,
        n < 1000 ==> decimal(n).len() <= 3,
        decimal(n).len() <= n / 10 + 1,
    decreases n,
{
    if n >= 10 {
        lemma_decimal_len_bound(n / 10);
    }
}

/// `n` in decimal, padded with leading zeros to `width` digits.
pub fn zero_padded(n: u32, width: u32) -> (r: String)
    ensures
        r@ == padded_decimal(n as nat, width as nat),
{
    let digits = decimal_string(n);
    let count = digit_count(n);
    let mut out = String::new();
    proof {
        reveal_strlit("0");
    }
    if count < width {
        let pad: u32 = width - count;
        let mut i: u32 = 0;
        while i < pad
            invariant
                i <= pad,
                out@ == Seq::new(i as nat, |_k: int| '0'),
            decreases pad - i,
        {
            proof {
                reveal_strlit("0");
            }
            out.append("0");
            i = i + 1;
            assert(out@ =~= Seq::new(i as nat, |_k: int| '0'));
        }
    } else {
        assert(out@ =~= Seq::new(0, |_k: int| '0'));
    }
    out.append(digits.as_str());
    proof {
        if count >= width {
            assert(out@ =~= padded_decimal(n as nat, width as nat));
        }
    }
    out
}

/// Number of digits in the labels of a batch of `count` frames: three above
/// 99 frames, else two.
pub fn label_digits(count: u32) -> (r: u32)
    ensures
        r == label_width(count as int),
{
    if count > TWO_DIGIT_LIMIT { 3 } else { 2 }
}

/// The label stamped on frame `index` of a batch of `count` frames; the
/// same text ends the frame's directory or file name.
pub fn number_label(index: u32, count: u32) -> (r: String)
    ensures
        r@ == label_spec(index as nat, count as int),
{
    zero_padded(index, label_digits(count))
}

/// Where the frames of a batch go: one subdirectory per frame holding the
/// image and copies of the sidecar files, or, for a lone image, numbered
/// images side by side in the output directory.
pub struct FileManager {
    output_dir: String,
    spine_name: String,
    is_single_image_mode: bool,
}

/// A file to copy, from `from` to `to`.
pub struct FileCopy {
    pub from: String,
    pub to: String,
}

pub open spec fn copies_view(v: Seq<FileCopy>) -> Seq<(Seq<char>, Seq<char>)> {
    v.map_values(|c: FileCopy| (c.from@, c.to@))
}

pub open spec fn png_ext() -> Seq<char> {
    seq!['.', 'p', 'n', 'g']
}

pub open spec fn atlas_ext() -> Seq<char> {
    seq!['.', 'a', 't', 'l', 'a', 's']
}

pub open spec fn skel_ext() -> Seq<char> {
    seq!['.', 's', 'k', 'e', 'l']
}

/// `a/b`.
pub open spec fn join(a: Seq<char>, b: Seq<char>) -> Seq<char> {
    a + seq!['/'] + b
}

/// `<name>_<label>`: the name of frame `index`'s directory, or the stem of
/// its image for a lone image.
pub open spec fn frame_name(name: Seq<char>, index: nat, count: int) -> Seq<char> {
    name + seq!['_'] + label_spec(index, count)
}

fn push_str(s: &mut String, t: &str)
    ensures
        final(s)@ == old(s)@ + t@,
{
    s.append(t);
}

impl FileManager {
    pub closed spec fn spec_output_dir(&self) -> Seq<char> {
        self.output_dir@
    }

    pub closed spec fn spec_spine_name(&self) -> Seq<char> {
        self.spine_name@
    }

    pub closed spec fn spec_single(&self) -> bool {
        self.is_single_image_mode
    }

    pub fn new(output_dir: &str, spine_name: &str, is_single_image_mode: bool) -> (r: FileManager)
        ensures
            r.spec_output_dir() == output_dir@,
            r.spec_spine_name() == spine_name@,
            r.spec_single() == is_single_image_mode,
    {
        FileManager {
            output_dir: String::from_str(output_dir),
            spine_name: String::from_str(spine_name),
            is_single_image_mode,
        }
    }

    pub fn is_single_image_mode(&self) -> (r: bool)
        ensures
            r == self.spec_single(),
    {
        self.is_single_image_mode
    }

    /// `<spine_name>_<label>` for frame `index` of `count`.
    pub fn dir_name(&self, index: u32, count: u32) -> (r: String)
        ensures
            r@ == frame_name(self.spec_spine_name(), index as nat, count as int),
    {
        let mut name = self.spine_name.clone();
        proof {
            reveal_strlit("_");
        }
        push_str(&mut name, "_");
        let label = number_label(index, count);
        push_str(&mut name, label.as_str());
        name
    }

    pub open spec fn subdir_spec(&self, index: nat, count: int) -> Seq<char> {
        join(self.spec_output_dir(), frame_name(self.spec_spine_name(), index, count))
    }

    /// The directory of frame `index` of `count`, inside the output directory.
    pub fn frame_dir(&self, index: u32, count: u32) -> (r: String)
        ensures
            r@ == self.subdir_spec(index as nat, count as int),
    {
        let mut path = self.output_dir.clone();
        proof {
            reveal_strlit("/");
        }
        push_str(&mut path, "/");
        let name = self.dir_name(index, count);
        push_str(&mut path, name.as_str());
        path
    }

    /// The frame directories to create afresh for a batch of `count`, in
    /// frame order; none for a lone image.
    pub fn output_subdirs(&self, count: u32) -> (r: Vec<String>)
        ensures
            self.spec_single() ==> r@.len() == 0,
            !self.spec_single() ==> r@.len() == count,
            !self.spec_single() ==> forall|k: int| 0 <= k < count ==> #[trigger] r@[k]@ == self.subdir_spec((k + 1) as nat, count as int),
    {
        let mut dirs: Vec<String> = Vec::new();
        if self.is_single_image_mode {
            return dirs;
        }
        let mut i: u32 = 0;
        while i < count
            invariant
                i <= count,
                dirs@.len() == i,
                forall|k: int| 0 <= k < i ==> #[trigger] dirs@[k]@ == self.subdir_spec((k + 1) as nat, count as int),
            decreases count - i,
        {
            let dir = self.frame_dir(i + 1, count);
            dirs.push(dir);
            i = i + 1;
        }
        dirs
    }

    pub open spec fn png_path_spec(&self, index: nat, count: int) -> Seq<char> {
        if self.spec_single() {
            join(self.spec_output_dir(), frame_name(self.spec_spine_name(), index, count) + png_ext())
        } else {
            join(self.subdir_spec(index, count), self.spec_spine_name() + png_ext())
        }
    }

    /// Where frame `index` of `count` is saved: `<out>/<spine>_<label>.png`
    /// for a lone image, else `<out>/<spine>_<label>/<spine>.png`.
    pub fn output_png_path(&self, index: u32, count: u32) -> (r: String)
        ensures
            r@ == self.png_path_spec(index as nat, count as int),
    {
        proof {
            reveal_strlit("/");
            reveal_strlit(".png");
        }
        if self.is_single_image_mode {
            let mut path = self.output_dir.clone();
            push_str(&mut path, "/");
            let name = self.dir_name(index, count);
            push_str(&mut path, name.as_str());
            push_str(&mut path, ".png");
            assert(path@ =~= self.png_path_spec(index as nat, count as int));
            path
        } else {
            let mut path = self.frame_dir(index, count);
            push_str(&mut path, "/");
            push_str(&mut path, self.spine_name.as_str());
            push_str(&mut path, ".png");
            assert(path@ =~= self.png_path_spec(index as nat, count as int));
            path
        }
    }

    /// `<out>/<dir_name>/<spine><ext>`: a sidecar file's copy.
    pub open spec fn sidecar_target(&self, dir_name: Seq<char>, ext: Seq<char>) -> Seq<char> {
        join(join(self.spec_output_dir(), dir_name), self.spec_spine_name() + ext)
    }

    pub open spec fn copies_spec(
        &self,
        dir_name: Seq<char>,
        atlas_path: Seq<char>,
        skel_path: Seq<char>,
        has_atlas: bool,
        has_skel: bool,
    ) -> Seq<(Seq<char>, Seq<char>)> {
        if self.spec_single() {
            Seq::empty()
        } else {
            let atlas = if has_atlas { seq![(atlas_path, self.sidecar_target(dir_name, atlas_ext()))] } else { Seq::empty() };
            let skel = if has_skel { seq![(skel_path, self.sidecar_target(dir_name, skel_ext()))] } else { Seq::empty() };
            atlas + skel
        }
    }

    fn sidecar_copy(&self, from: &str, dir_name: &str, ext: &str) -> (r: FileCopy)
        ensures
            r.from@ == from@,
            r.to@ == self.sidecar_target(dir_name@, ext@),
    {
        proof {
            reveal_strlit("/");
        }
        let mut to = self.output_dir.clone();
        push_str(&mut to, "/");
        push_str(&mut to, dir_name);
        push_str(&mut to, "/");
        push_str(&mut to, self.spine_name.as_str());
        push_str(&mut to, ext);
        assert(to@ =~= self.sidecar_target(dir_name@, ext@));
        FileCopy { from: String::from_str(from), to }
    }

    /// The sidecar copies that go into frame directory `dir_name`: the
    /// atlas and the skeleton, each when present, as
    /// `<out>/<dir_name>/<spine>.atlas` and `.skel`; none for a lone image.
    pub fn planned_copies(
        &self,
        dir_name: &str,
        atlas_path: &str,
        skel_path: &str,
        has_atlas: bool,
        has_skel: bool,
    ) -> (r: Vec<FileCopy>)
        ensures
            copies_view(r@) == self.copies_spec(dir_name@, atlas_path@, skel_path@, has_atlas, has_skel),
    {
        let mut copies: Vec<FileCopy> = Vec::new();
        if self.is_single_image_mode {
            assert(copies_view(copies@) =~= Seq::empty());
            return copies;
        }
        proof {
            reveal_strlit(".atlas");
            reveal_strlit(".skel");
            assert(".atlas"@ =~= atlas_ext());
            assert(".skel"@ =~= skel_ext());
        }
        if has_atlas {
            copies.push(self.sidecar_copy(atlas_path, dir_name, ".atlas"));
        }
        if has_skel {
            copies.push(self.sidecar_copy(skel_path, dir_name, ".skel"));
        }
        assert(copies_view(copies@) =~= self.copies_spec(dir_name@, atlas_path@, skel_path@, has_atlas, has_skel));
        copies
    }

    /// The copies for a frame directory when both the atlas and the
    /// skeleton are present; the image itself is written by the compositor.
    pub fn copy_spine_files(&self, dir_name: &str, atlas_path: &str, _png_path: &str, skel_path: &str) -> (r: Vec<FileCopy>)
        ensures
            copies_view(r@) == self.copies_spec(dir_name@, atlas_path@, skel_path@, true, true),
    {
        self.planned_copies(dir_name, atlas_path, skel_path, true, true)
    }
}

/// In a batch of `count` frames, the label of every frame below 1000 has
/// the batch's digit count (three above 99 frames, else two), and that
/// same label is the numeric suffix of the frame's name, which names its
/// directory, or its image file for a lone image: the label stamped on a
/// frame always matches the number in its file name.
pub proof fn lemma_label_matches_file_name(fm: FileManager, index: nat, count: nat)
    requires
        1 <= index <= count,
        index < 1000,
    ensures
        label_spec(index, count as int).len() == label_width(count as int),
        ({
            let name = frame_name(fm.spec_spine_name(), index, count as int);
            let label = label_spec(index, count as int);
            name.subrange(name.len() - label.len(), name.len() as int) == label
        }),
        fm.spec_single() ==> fm.png_path_spec(index, count as int) == join(
            fm.spec_output_dir(),
            frame_name(fm.spec_spine_name(), index, count as int) + png_ext(),
        ),
        !fm.spec_single() ==> fm.png_path_spec(index, count as int) == join(
            join(fm.spec_output_dir(), frame_name(fm.spec_spine_name(), index, count as int)),
            fm.spec_spine_name() + png_ext(),
        ),
{
    lemma_decimal_len_bound(index);
    let name = frame_name(fm.spec_spine_name(), index, count as int);
    let label = label_spec(index, count as int);
    assert(name.subrange(name.len() - label.len(), name.len() as int) =~= label);
}

} // verus!
