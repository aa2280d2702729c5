//! Captured frames and the capture sources: cutting the game's area out of
//! a captured frame, the empty source, the device-context source and the
//! video codec choice. Pixels come from the platform's capture API and
//! scaling is done by the caller; what is decided about them is here.

use vstd::prelude::*;

verus! {

/// A rectangle in pixels.
#[derive(Clone, Copy, Debug, PartialEq, Eq, Structural)]
pub struct Rect {
    pub x: i32,
    pub y: i32,
    pub width: i32,
    pub height: i32,
}

/// A point in pixels.
#[derive(Clone, Copy, Debug, PartialEq, Eq, Structural)]
pub struct Point {
    pub x: i32,
    pub y: i32,
}

/// A captured image: `height` rows of `width` pixels of `channels` bytes.
#[derive(Debug)]
pub struct Frame {
    pub width: i32,
    pub height: i32,
    pub channels: i32,
    pub rows: Vec<Vec<u8>>,
}

impl Frame {
    /// The bytes of each row, as a sequence per row.
    pub open spec fn pixels(&self) -> Seq<Seq<u8>> {
        self.rows@.map_values(|r: Vec<u8>| r@)
    }

    /// Shape of a frame: every row holds `width` pixels.
    pub open spec fn wf(&self) -> bool {
        &&& 0 <= self.width
        &&& 0 <= self.height
        &&& 1 <= self.channels <= 4
        &&& self.rows@.len() == self.height
        &&& forall|r: int| 0 <= r < self.height ==> (#[trigger] self.rows@[r])@.len() == self.width * self.channels
    }

    /// A frame without pixels.
    pub open spec fn is_empty_spec(&self) -> bool {
        self.width == 0 || self.height == 0
    }

    /// `rect` lies inside a frame of this size.
    pub open spec fn contains(&self, rect: Rect) -> bool {
        &&& 0 <= rect.x
        &&& 0 <= rect.width
        &&& rect.x + rect.width <= self.width
        &&& 0 <= rect.y
        &&& 0 <= rect.height
        &&& rect.y + rect.height <= self.height
    }

    /// The part of this frame that `rect` covers.
    pub open spec fn cut(&self, rect: Rect) -> Seq<Seq<u8>> {
        Seq::new(
            rect.height as nat,
            |i: int| self.rows@[rect.y + i]@.subrange(rect.x * self.channels, (rect.x + rect.width) * self.channels),
        )
    }

    /// A frame with no pixels.
    pub fn new_empty() -> (r: Frame)
        ensures
            r.wf(),
            r.is_empty_spec(),
            r.width == 0 && r.height == 0 && r.channels == 1,
    {
        Frame { width: 0, height: 0, channels: 1, rows: Vec::new() }
    }

    /// A `height` by `width` frame of `channels` bytes per pixel, every
    /// byte 0.
    pub fn new_zeroed(height: i32, width: i32, channels: i32) -> (r: Frame)
        requires
            0 <= height,
            0 <= width,
            1 <= channels <= 4,
            width * channels <= usize::MAX,
        ensures
            r.wf(),
            r.width == width && r.height == height && r.channels == channels,
            forall|i: int, j: int| 0 <= i < height && 0 <= j < width * channels ==> #[trigger] r.pixels()[i][j] == 0,
    {
        proof {
            assert(0 <= width * channels <= 0x7fff_ffff * 4) by (nonlinear_arith)
                requires
                    0 <= width <= 0x7fff_ffff,
                    1 <= channels <= 4,
            ;
        }
        let row_len: usize = (width as i64 * channels as i64) as usize;
        let mut row: Vec<u8> = Vec::new();
        let mut j: usize = 0;
        while j < row_len
            invariant
                j <= row_len,
                row@.len() == j,
                forall|k: int| 0 <= k < j ==> #[trigger] row@[k] == 0,
            decreases row_len - j,
        {
            row.push(0);
            j = j + 1;
        }
        let mut rows: Vec<Vec<u8>> = Vec::new();
        let mut i: i32 = 0;
        while i < height
            invariant
                0 <= i <= height,
                rows@.len() == i,
                row@.len() == row_len,
                row_len == width * channels,
                forall|k: int| 0 <= k < row_len ==> #[trigger] row@[k] == 0,
                forall|r: int| 0 <= r < i ==> (#[trigger] rows@[r])@ == row@,
            decreases height - i,
        {
            let copy = row.clone();
            proof {
                assert(copy@ =~= row@);
            }
            rows.push(copy);
            i = i + 1;
        }
        Frame { width, height, channels, rows }
    }

    /// Whether the frame has no pixels.
    pub fn is_empty(&self) -> (b: bool)
        ensures
            b == self.is_empty_spec(),
    {
        self.width == 0 || self.height == 0
    }

    /// A copy of the frame.
    pub fn duplicate(&self) -> (r: Frame)
        requires
            self.wf(),
        ensures
            r.wf(),
            r.width == self.width && r.height == self.height && r.channels == self.channels,
            r.pixels() == self.pixels(),
    {
        let mut rows: Vec<Vec<u8>> = Vec::new();
        let mut i: usize = 0;
        while i < self.rows.len()
            invariant
                i <= self.rows@.len(),
                rows@.len() == i,
                forall|r: int| 0 <= r < i ==> (#[trigger] rows@[r])@ == self.rows@[r]@,
            decreases self.rows@.len() - i,
        {
            let copy = self.rows[i].clone();
            proof {
                assert(copy@ =~= self.rows@[i as int]@);
            }
            rows.push(copy);
            i = i + 1;
        }
        let r = Frame { width: self.width, height: self.height, channels: self.channels, rows };
        proof {
            assert(r.pixels() =~= self.pixels());
        }
        r
    }

    /// The part of the frame that `rect` covers, or None when `rect` does
    /// not lie inside the frame.
    pub fn roi(&self, rect: Rect) -> (r: Option<Frame>)
        requires
            self.wf(),
        ensures
            match r {
                Some(f) => {
                    &&& self.contains(rect)
                    &&& f.wf()
                    &&& f.width == rect.width && f.height == rect.height && f.channels == self.channels
                    &&& f.pixels() == self.cut(rect)
                },
                None => !self.contains(rect),
            },
    {
        if rect.x < 0 || rect.width < 0 || rect.y < 0 || rect.height < 0 {
            return None;
        }
        if rect.x as i64 + rect.width as i64 > self.width as i64 || rect.y as i64 + rect.height as i64
            > self.height as i64 {
            return None;
        }
        if rect.height == 0 {
            let f = Frame { width: rect.width, height: 0, channels: self.channels, rows: Vec::new() };
            proof {
                assert(f.pixels() =~= self.cut(rect));
            }
            return Some(f);
        }
        proof {
            assert(self.rows@[0]@.len() == self.width * self.channels);
            assert(0 <= rect.x * self.channels <= (rect.x + rect.width) * self.channels <= self.width
                * self.channels <= 0x7fff_ffff * 4) by (nonlinear_arith)
                requires
                    0 <= rect.x,
                    0 <= rect.width,
                    rect.x + rect.width <= self.width <= 0x7fff_ffff,
                    1 <= self.channels <= 4,
            ;
        }
        let start64: i64 = rect.x as i64 * self.channels as i64;
        let end64: i64 = (rect.x as i64 + rect.width as i64) * self.channels as i64;
        proof {
            assert(rect.x * self.channels <= (rect.x + rect.width) * self.channels) by (nonlinear_arith)
                requires
                    0 <= rect.width,
                    0 <= self.channels,
            ;
            assert((rect.x + rect.width) * self.channels <= self.width * self.channels) by (nonlinear_arith)
                requires
                    rect.x + rect.width <= self.width,
                    0 <= self.channels,
            ;
        }
        let row0_len = self.rows[0].len();
        proof {
            assert(end64 <= row0_len);
        }
        let start: usize = start64 as usize;
        let end: usize = end64 as usize;
        let mut rows: Vec<Vec<u8>> = Vec::new();
        let mut i: usize = 0;
        let h = rect.height as usize;
        let y = rect.y as usize;
        while i < h
            invariant
                self.wf(),
                self.contains(rect),
                h == rect.height,
                y == rect.y,
                start == rect.x * self.channels,
                end == (rect.x + rect.width) * self.channels,
                start <= end <= self.width * self.channels,
                i <= h,
                rows@.len() == i,
                forall|r: int|
                    0 <= r < i ==> (#[trigger] rows@[r])@ == self.rows@[y + r]@.subrange(start as int, end as int),
            decreases h - i,
        {
            let src = &self.rows[y + i];
            let mut row: Vec<u8> = Vec::new();
            let mut j: usize = start;
            while j < end
                invariant
                    start <= j <= end,
                    end <= src@.len(),
                    row@ == src@.subrange(start as int, j as int),
                decreases end - j,
            {
                row.push(src[j]);
                proof {
                    assert(row@ =~= src@.subrange(start as int, j + 1));
                }
                j = j + 1;
            }
            rows.push(row);
            i = i + 1;
        }
        let f = Frame { width: rect.width, height: rect.height, channels: self.channels, rows };
        proof {
            assert(end - start == rect.width * self.channels) by (nonlinear_arith)
                requires
                    start == rect.x * self.channels,
                    end == (rect.x + rect.width) * self.channels,
            ;
            assert(f.pixels() =~= self.cut(rect));
        }
        Some(f)
    }
}

/// Two frames have the same size and the same pixels.
pub open spec fn same_frame(a: Frame, b: Frame) -> bool {
    &&& a.width == b.width
    &&& a.height == b.height
    &&& a.channels == b.channels
    &&& a.pixels() == b.pixels()
}

/// A frame of the size of `rect` whose pixels are the part of `from` that
/// `rect` covers.
pub open spec fn is_cut_of(f: Frame, from: Frame, rect: Rect) -> bool {
    &&& f.wf()
    &&& f.width == rect.width
    &&& f.height == rect.height
    &&& f.channels == from.channels
    &&& f.pixels() == from.cut(rect)
}

/// What `CaptureBase::get_mat` hands back: the frame to look at, or the
/// game's area cut out of the capture, which the caller scales down to the
/// base resolution and hands to `CaptureBase::finish_resize`.
#[derive(Debug)]
pub enum MatStep {
    Ready(Frame),
    Scale(Frame),
}

/// Where the game's screen lies in what a source captures, and the last
/// frame cut out of it.
#[derive(Debug)]
pub struct CaptureBase {
    pub prev_image: Frame,
    pub dummy_data: Frame,
    pub resolution: i32,
    pub content_area: Rect,
    pub offset_pos: Point,
    pub is_resize: bool,
}

impl CaptureBase {
    /// Shape of the capture state: both frames are well formed.
    pub open spec fn wf(&self) -> bool {
        &&& self.prev_image.wf()
        &&& self.dummy_data.wf()
    }

    /// The frame handed out for the last capture: the blank frame while no
    /// pixels were cut out.
    pub open spec fn shown(&self) -> Frame {
        if self.prev_image.is_empty_spec() {
            self.dummy_data
        } else {
            self.prev_image
        }
    }

    /// A capture of the whole 640 by 360 screen at the base resolution,
    /// with a blank 640 by 360 frame.
    pub fn new() -> (r: CaptureBase)
        ensures
            r.wf(),
            r.prev_image.is_empty_spec(),
            r.dummy_data.width == 640 && r.dummy_data.height == 360 && r.dummy_data.channels == 3,
            r.resolution == 40,
            r.content_area == (Rect { x: 0, y: 0, width: 640, height: 360 }),
            r.offset_pos == (Point { x: 0, y: 0 }),
            !r.is_resize,
    {
        CaptureBase {
            prev_image: Frame::new_empty(),
            dummy_data: Frame::new_zeroed(360, 640, 3),
            resolution: 40,
            content_area: Rect { x: 0, y: 0, width: 640, height: 360 },
            offset_pos: Point { x: 0, y: 0 },
            is_resize: false,
        }
    }

    /// A capture of `content_area` found at `resolution`; `is_resize` tells
    /// whether the area has to be scaled down to the base resolution.
    pub fn with_area(resolution: i32, content_area: Rect, is_resize: bool) -> (r: CaptureBase)
        ensures
            r.wf(),
            r.prev_image.is_empty_spec(),
            r.dummy_data.width == 640 && r.dummy_data.height == 360 && r.dummy_data.channels == 3,
            r.resolution == resolution,
            r.content_area == content_area,
            r.offset_pos == (Point { x: 0, y: 0 }),
            r.is_resize == is_resize,
    {
        let mut own = CaptureBase::new();
        own.resolution = resolution;
        own.content_area = content_area;
        own.is_resize = is_resize;
        own
    }

    /// The frame to hand out for the last capture.
    fn shown_frame(&self) -> (r: Frame)
        requires
            self.wf(),
        ensures
            r.wf(),
            same_frame(r, self.shown()),
    {
        if self.prev_image.is_empty() {
            self.dummy_data.duplicate()
        } else {
            self.prev_image.duplicate()
        }
    }

    /// Cuts the game's area out of a captured frame. When the area does not
    /// lie inside the frame, the last frame is handed out again. When the
    /// area has to be scaled, the cut-out is handed back for scaling and
    /// nothing changes yet; otherwise it becomes the last frame, and the
    /// frame handed out is it, or the blank frame when it has no pixels.
    pub fn get_mat(&mut self, mat: Frame) -> (r: MatStep)
        requires
            old(self).wf(),
            mat.wf(),
        ensures
            final(self).wf(),
            !mat.contains(old(self).content_area) ==> {
                &&& *final(self) == *old(self)
                &&& r matches MatStep::Ready(f) && same_frame(f, old(self).prev_image)
            },
            mat.contains(old(self).content_area) && old(self).is_resize ==> {
                &&& *final(self) == *old(self)
                &&& r matches MatStep::Scale(f) && is_cut_of(f, mat, old(self).content_area)
            },
            mat.contains(old(self).content_area) && !old(self).is_resize ==> {
                &&& is_cut_of(final(self).prev_image, mat, old(self).content_area)
                &&& final(self).dummy_data == old(self).dummy_data
                &&& final(self).resolution == old(self).resolution
                &&& final(self).content_area == old(self).content_area
                &&& final(self).offset_pos == old(self).offset_pos
                &&& final(self).is_resize == old(self).is_resize
                &&& r matches MatStep::Ready(f) && same_frame(f, final(self).shown())
            },
    {
        match mat.roi(self.content_area) {
            None => MatStep::Ready(self.prev_image.duplicate()),
            Some(cut) => {
                if self.is_resize {
                    MatStep::Scale(cut)
                } else {
                    self.prev_image = cut;
                    MatStep::Ready(self.shown_frame())
                }
            },
        }
    }

    /// Takes the scaled cut-out of the last capture as the last frame and
    /// hands out the frame for it: the scaled frame, or the blank frame
    /// when it has no pixels.
    pub fn finish_resize(&mut self, scaled: Frame) -> (r: Frame)
        requires
            old(self).wf(),
            scaled.wf(),
        ensures
            final(self).wf(),
            final(self).prev_image == scaled,
            final(self).dummy_data == old(self).dummy_data,
            final(self).resolution == old(self).resolution,
            final(self).content_area == old(self).content_area,
            final(self).offset_pos == old(self).offset_pos,
            final(self).is_resize == old(self).is_resize,
            r.wf(),
            same_frame(r, final(self).shown()),
    {
        self.prev_image = scaled;
        self.shown_frame()
    }
}

/// The source used while nothing is captured: it hands out one fixed frame.
#[derive(Debug)]
pub struct CaptureFromEmpty {
    pub prev_image: Frame,
}

impl CaptureFromEmpty {
    /// A source that hands out `image`.
    pub fn new(image: Frame) -> (r: CaptureFromEmpty)
        ensures
            r.prev_image == image,
    {
        CaptureFromEmpty { prev_image: image }
    }

    /// A copy of the fixed frame.
    pub fn get_mat(&mut self) -> (r: Frame)
        requires
            old(self).prev_image.wf(),
        ensures
            *final(self) == *old(self),
            r.wf(),
            same_frame(r, old(self).prev_image),
    {
        self.prev_image.duplicate()
    }
}

/// The video I/O backend that lets the library choose.
pub const CAP_ANY: i32 = 0;

/// The image-sequence backend, which cannot write a video file.
pub const CAP_IMAGES: i32 = 2000;

/// The four-character codes tried, in order: HEVC, H265, X264, FMP4, ESDS,
/// MP4V, MJPG.
pub open spec fn fourcc_tags() -> Seq<Seq<u8>> {
    seq![
        seq![72u8, 69u8, 86u8, 67u8],
        seq![72u8, 50u8, 54u8, 53u8],
        seq![88u8, 50u8, 54u8, 52u8],
        seq![70u8, 77u8, 80u8, 52u8],
        seq![69u8, 83u8, 68u8, 83u8],
        seq![77u8, 80u8, 52u8, 86u8],
        seq![77u8, 74u8, 80u8, 71u8],
    ]
}

/// The file extensions tried for each code, in order.
pub open spec fn extensions() -> Seq<Seq<char>> {
    seq!["mp4"@, "avi"@]
}

/// The value of four bytes read least significant first.
pub open spec fn le_value(t: Seq<u8>) -> int {
    t[0] + 256 * t[1] + 65536 * t[2] + 16777216 * t[3]
}

/// The value of four bytes read most significant first.
pub open spec fn be_value(t: Seq<u8>) -> int {
    t[3] + 256 * t[2] + 65536 * t[1] + 16777216 * t[0]
}

/// `code` is the four-character code `tag` as this machine stores it.
pub open spec fn is_fourcc(code: i32, tag: Seq<u8>) -> bool {
    code == le_value(tag) || code == be_value(tag)
}

/// The number whose bytes in this machine's order are `tag`: calls
/// `i32::from_ne_bytes`. The contract states both byte orders, since the
/// machine's is not fixed here; the bytes are ASCII, so the value is
/// positive either way.
#[verifier::external_body]
fn fourcc_code(tag: [u8; 4]) -> (r: i32)
    requires
        forall|i: int| 0 <= i < 4 ==> tag@[i] < 128,
    ensures
        is_fourcc(r, tag@),
{
    i32::from_ne_bytes(tag)
}

/// The codec choices tried for the writer backends `backends`, in order:
/// `(backend, code, extension)` with indices into `fourcc_tags` and
/// `extensions`; the image-sequence backend is skipped.
pub open spec fn candidate_order(backends: Seq<i32>) -> Seq<(i32, int, int)>
    decreases backends.len(),
{
    if backends.len() == 0 {
        Seq::empty()
    } else {
        let rest = candidate_order(backends.drop_last());
        let b = backends.last();
        if b == CAP_IMAGES {
            rest
        } else {
            rest + Seq::new(14, |k: int| (b, k / 2, k % 2))
        }
    }
}

/// The base of the recording's file name: the one given, else "temp".
pub open spec fn base_name(file_name: Option<Seq<char>>) -> Seq<char> {
    match file_name {
        Some(n) => n,
        None => "temp"@,
    }
}

/// The video codec used to record scenes.
#[derive(Debug)]
pub struct Codec {
    pub backend: i32,
    pub fourcc: i32,
    pub file_name: Option<String>,
}

/// `c` is the codec choice `cand` for the file name base `name`.
pub open spec fn codec_is(c: Codec, cand: (i32, int, int), name: Seq<char>) -> bool {
    &&& 0 <= cand.1 < 7
    &&& 0 <= cand.2 < 2
    &&& c.backend == cand.0
    &&& is_fourcc(c.fourcc, fourcc_tags()[cand.1])
    &&& c.file_name is Some
    &&& c.file_name.unwrap()@ == name + "."@ + extensions()[cand.2]
}

impl Codec {
    /// No codec: any backend, no code, no file.
    pub fn new() -> (r: Codec)
        ensures
            r.backend == CAP_ANY,
            r.fourcc == -1,
            r.file_name is None,
    {
        Codec { backend: CAP_ANY, fourcc: -1, file_name: None }
    }

    /// The four-character code at `index` in the order tried.
    fn tag_at(index: usize) -> (r: i32)
        requires
            index < 7,
        ensures
            is_fourcc(r, fourcc_tags()[index as int]),
    {
        let tag: [u8; 4] = if index == 0 {
            [72, 69, 86, 67]
        } else if index == 1 {
            [72, 50, 54, 53]
        } else if index == 2 {
            [88, 50, 54, 52]
        } else if index == 3 {
            [70, 77, 80, 52]
        } else if index == 4 {
            [69, 83, 68, 83]
        } else if index == 5 {
            [77, 80, 52, 86]
        } else {
            [77, 74, 80, 71]
        };
        proof {
            assert(tag@ =~= fourcc_tags()[index as int]);
        }
        fourcc_code(tag)
    }

    /// The file name for the base `name` and the extension at `index`.
    fn file_for(name: &str, index: usize) -> (r: String)
        requires
            index < 2,
        ensures
            r@ == name@ + "."@ + extensions()[index as int],
    {
        let mut text = name.to_owned();
        text.append(".");
        if index == 0 {
            text.append("mp4");
        } else {
            text.append("avi");
        }
        text
    }

    /// Every codec choice for the writer backends `backends`, in the order
    /// they are tried.
    pub fn candidates(file_name: &Option<String>, backends: &Vec<i32>) -> (r: Vec<Codec>)
        ensures
            r@.len() == candidate_order(backends@).len(),
            forall|i: int|
                0 <= i < r@.len() ==> codec_is(
                    #[trigger] r@[i],
                    candidate_order(backends@)[i],
                    base_name(crate::data::opt_view(*file_name)),
                ),
    {
        let name: String = match file_name {
            Some(n) => n.clone(),
            None => String::from_str("temp"),
        };
        proof {
            reveal_strlit("temp");
        }
        let ghost name_view = base_name(crate::data::opt_view(*file_name));
        let mut r: Vec<Codec> = Vec::new();
        let mut b: usize = 0;
        while b < backends.len()
            invariant
                b <= backends@.len(),
                name@ == name_view,
                r@.len() == candidate_order(backends@.take(b as int)).len(),
                forall|i: int|
                    0 <= i < r@.len() ==> codec_is(#[trigger] r@[i], candidate_order(backends@.take(b as int))[i], name_view),
            decreases backends@.len() - b,
        {
            let backend = backends[b];
            proof {
                assert(backends@.take(b + 1).drop_last() =~= backends@.take(b as int));
            }
            if backend != CAP_IMAGES {
                let ghost before = r@;
                let mut k: usize = 0;
                while k < 14
                    invariant
                        k <= 14,
                        name@ == name_view,
                        before.len() == candidate_order(backends@.take(b as int)).len(),
                        r@.len() == before.len() + k,
                        forall|i: int| 0 <= i < before.len() ==> r@[i] == before[i],
                        forall|i: int|
                            0 <= i < before.len() ==> codec_is(#[trigger] before[i], candidate_order(backends@.take(b as int))[i], name_view),
                        forall|i: int|
                            0 <= i < k ==> codec_is(#[trigger] r@[before.len() + i], (backend, i / 2, i % 2), name_view),
                    decreases 14 - k,
                {
                    let c = Codec {
                        backend,
                        fourcc: Codec::tag_at(k / 2),
                        file_name: Some(Codec::file_for(name.as_str(), k % 2)),
                    };
                    r.push(c);
                    k = k + 1;
                }
                proof {
                    let order = candidate_order(backends@.take(b + 1));
                    assert(order =~= candidate_order(backends@.take(b as int)) + Seq::new(
                        14,
                        |k: int| (backend, k / 2, k % 2),
                    ));
                    assert forall|i: int| 0 <= i < r@.len() implies codec_is(#[trigger] r@[i], order[i], name_view) by {
                        if i < before.len() {
                            assert(r@[i] == before[i]);
                        } else {
                            assert(r@[before.len() + (i - before.len())] == r@[i]);
                        }
                    }
                }
            } else {
                proof {
                    assert(candidate_order(backends@.take(b + 1)) =~= candidate_order(backends@.take(b as int)));
                }
            }
            b = b + 1;
        }
        proof {
            assert(backends@.take(backends@.len() as int) =~= backends@);
        }
        r
    }

    /// The spec of `find_codec`: the choice at `first_opened` when there is
    /// one, else no codec with the file "<name>.avi".
    pub open spec fn found_codec(r: Codec, file_name: Option<Seq<char>>, backends: Seq<i32>, first_opened: Option<usize>) -> bool {
        let order = candidate_order(backends);
        let name = base_name(file_name);
        if first_opened is Some && first_opened.unwrap() < order.len() {
            codec_is(r, order[first_opened.unwrap() as int], name)
        } else {
            &&& r.backend == CAP_ANY
            &&& r.fourcc == -1
            &&& r.file_name is Some
            &&& r.file_name.unwrap()@ == name + ".avi"@
        }
    }

    /// The codec to record with: among the choices for the writer backends
    /// `backends`, in the order of `candidates`, the one at `first_opened`,
    /// the first that a video writer could open; when none could, no codec,
    /// with the file "<name>.avi".
    pub fn find_codec(file_name: Option<String>, backends: &Vec<i32>, first_opened: Option<usize>) -> (r: Codec)
        ensures
            Self::found_codec(r, crate::data::opt_view(file_name), backends@, first_opened),
    {
        let mut cands = Codec::candidates(&file_name, backends);
        if let Some(i) = first_opened {
            if i < cands.len() {
                return cands.remove(i);
            }
        }
        let name: String = match file_name {
            Some(n) => n,
            None => String::from_str("temp"),
        };
        proof {
            reveal_strlit("temp");
            reveal_strlit("avi");
            reveal_strlit(".avi");
            reveal_strlit(".");
            assert("."@ + "avi"@ =~= ".avi"@);
        }
        let file = Codec::file_for(name.as_str(), 1);
        proof {
            assert(file@ =~= name@ + ".avi"@);
        }
        Codec { backend: CAP_ANY, fourcc: -1, file_name: Some(file) }
    }
}

/// The codec, found once on first use and kept.
pub struct WrappedCodec {
    codecs: Option<Codec>,
}

impl WrappedCodec {
    /// The codec kept, if one was found.
    pub closed spec fn found(&self) -> Option<Codec> {
        self.codecs
    }

    /// Nothing found yet.
    pub fn new() -> (r: WrappedCodec)
        ensures
            r.found() is None,
    {
        WrappedCodec { codecs: None }
    }

    /// Whether the codec was found already.
    pub fn is_found(&self) -> (b: bool)
        ensures
            b == self.found() is Some,
    {
        self.codecs.is_some()
    }

    /// The codec kept; on first use it is found with `Codec::find_codec`
    /// from the writer backends `backends` and the first choice that
    /// opened, `first_opened`, which are not looked at later.
    pub fn get(&mut self, backends: &Vec<i32>, first_opened: Option<usize>) -> (r: &Codec)
        ensures
            old(self).found() is Some ==> *final(self) == *old(self) && *r == old(self).found().unwrap(),
            old(self).found() is None ==> {
                &&& final(self).found() == Some(*r)
                &&& Codec::found_codec(*r, None, backends@, first_opened)
            },
    {
        if self.codecs.is_none() {
            self.codecs = Some(Codec::find_codec(None, backends, first_opened));
        }
        self.codecs.as_ref().unwrap()
    }
}

/// Where the next capture through a device context comes from.
#[derive(Clone, Copy, Debug, PartialEq, Eq, Structural)]
pub enum DcSource {
    /// A new device context is made from the window, and the frame read
    /// from it.
    Window,
    /// The frame is copied through the device context made before.
    Dc,
}

/// Capture of a window through a device context kept between frames.
#[derive(Debug)]
pub struct CaptureDC {
    prev_image: Frame,
    has_dc: bool,
    width: i32,
    height: i32,
}

impl CaptureDC {
    /// The last frame captured.
    pub closed spec fn last(&self) -> Frame {
        self.prev_image
    }

    /// Whether a device context is kept.
    pub closed spec fn holds_dc(&self) -> bool {
        self.has_dc
    }

    /// The size the device context was made for.
    pub closed spec fn dc_size(&self) -> (int, int) {
        (self.width as int, self.height as int)
    }

    /// No device context and no frame yet.
    pub fn new() -> (r: CaptureDC)
        ensures
            !r.holds_dc(),
            r.last().wf(),
            r.last().is_empty_spec(),
            r.dc_size() == (0int, 0int),
    {
        CaptureDC { prev_image: Frame::new_empty(), has_dc: false, width: 0, height: 0 }
    }

    /// Lets go of the device context.
    pub fn release(&mut self)
        ensures
            !final(self).holds_dc(),
            final(self).last() == old(self).last(),
            final(self).dc_size() == old(self).dc_size(),
    {
        self.has_dc = false;
    }

    /// Where the next capture comes from: from the window while no device
    /// context is kept or the last frame's size differs from the one the
    /// device context was made for; through the device context otherwise.
    pub fn source(&self) -> (r: DcSource)
        ensures
            r == (if !self.holds_dc() || self.dc_size() != (self.last().width as int, self.last().height as int) {
                DcSource::Window
            } else {
                DcSource::Dc
            }),
    {
        if !self.has_dc {
            return DcSource::Window;
        }
        if self.width != self.prev_image.width || self.height != self.prev_image.height {
            return DcSource::Window;
        }
        DcSource::Dc
    }

    /// Takes the frame `captured` from the whole window, through a new
    /// device context, and cuts `content_area` out of it. When the area
    /// does not lie inside the frame there is no frame (the last one is
    /// dropped); otherwise the cut-out becomes the last frame and the device
    /// context's size, and a copy of it is handed out.
    pub fn store_from_window(&mut self, captured: Frame, content_area: Option<Rect>) -> (r: Option<Frame>)
        requires
            captured.wf(),
        ensures
            final(self).holds_dc(),
            final(self).last().wf(),
            match content_area {
                Some(rect) => if captured.contains(rect) {
                    &&& is_cut_of(final(self).last(), captured, rect)
                    &&& r matches Some(f) && same_frame(f, final(self).last())
                } else {
                    &&& final(self).last().is_empty_spec()
                    &&& r is None
                },
                None => {
                    &&& same_frame(final(self).last(), captured)
                    &&& r matches Some(f) && same_frame(f, captured)
                },
            },
            r is Some ==> final(self).dc_size() == (
                final(self).last().width as int,
                final(self).last().height as int,
            ),
    {
        self.has_dc = true;
        self.width = captured.width;
        self.height = captured.height;
        self.prev_image = Frame::new_empty();
        let image = match content_area {
            Some(rect) => match captured.roi(rect) {
                Some(f) => f,
                None => {
                    return None;
                },
            },
            None => captured,
        };
        self.prev_image = image;
        self.width = self.prev_image.width;
        self.height = self.prev_image.height;
        Some(self.prev_image.duplicate())
    }

    /// Takes the frame `pixels` copied through the kept device context as
    /// the last frame and hands out its part of the size of `content_area`
    /// (None when that does not fit), or all of it without an area.
    pub fn store_from_dc(&mut self, pixels: Frame, content_area: Option<Rect>) -> (r: Option<Frame>)
        requires
            pixels.wf(),
        ensures
            final(self).last() == pixels,
            final(self).holds_dc() == old(self).holds_dc(),
            final(self).dc_size() == old(self).dc_size(),
            match content_area {
                Some(rect) => {
                    let at_origin = Rect { x: 0, y: 0, width: rect.width, height: rect.height };
                    match r {
                        Some(f) => pixels.contains(at_origin) && is_cut_of(f, pixels, at_origin),
                        None => !pixels.contains(at_origin),
                    }
                },
                None => r matches Some(f) && same_frame(f, pixels),
            },
    {
        self.prev_image = pixels;
        match content_area {
            Some(rect) => self.prev_image.roi(Rect { x: 0, y: 0, width: rect.width, height: rect.height }),
            None => Some(self.prev_image.duplicate()),
        }
    }
}

/// How frames are captured, with the name shown for the mode.
#[derive(Debug)]
pub enum CaptureMode {
    Empty(String),
    Desktop(String),
    /// The shown name, the device number and the device's name.
    VideoDevice(String, i32, String),
    /// The shown name and the window's caption.
    Window(String, String),
}

/// The names shown for the capture modes, in the language in use.
#[derive(Debug)]
pub struct CaptureLabels {
    pub empty: String,
    pub desktop: String,
    pub video_device: String,
    pub window: String,
}

/// A capture mode as plain values: its kind (0 empty, 1 desktop, 2 video
/// device, 3 window), shown name, device number and device name or
/// window caption.
pub open spec fn mode_view(m: CaptureMode) -> (int, Seq<char>, int, Seq<char>) {
    match m {
        CaptureMode::Empty(l) => (0, l@, 0, Seq::empty()),
        CaptureMode::Desktop(l) => (1, l@, 0, Seq::empty()),
        CaptureMode::VideoDevice(l, id, name) => (2, l@, id as int, name@),
        CaptureMode::Window(l, caption) => (3, l@, 0, caption@),
    }
}

/// The capture modes used when none was chosen: no capture, the desktop,
/// video device -1, and no window.
pub open spec fn default_modes(labels: CaptureLabels) -> Seq<(int, Seq<char>, int, Seq<char>)> {
    seq![
        (0int, labels.empty@, 0int, Seq::<char>::empty()),
        (1int, labels.desktop@, 0int, Seq::<char>::empty()),
        (2int, labels.video_device@, -1int, Seq::<char>::empty()),
        (3int, labels.window@, 0int, Seq::<char>::empty()),
    ]
}

impl CaptureMode {
    /// No capture.
    pub fn new_empty(labels: &CaptureLabels) -> (r: CaptureMode)
        ensures
            mode_view(r) == (0int, labels.empty@, 0int, Seq::<char>::empty()),
    {
        CaptureMode::Empty(labels.empty.clone())
    }

    /// The desktop.
    pub fn new_desktop(labels: &CaptureLabels) -> (r: CaptureMode)
        ensures
            mode_view(r) == (1int, labels.desktop@, 0int, Seq::<char>::empty()),
    {
        CaptureMode::Desktop(labels.desktop.clone())
    }

    /// The video device numbered `device_id`.
    pub fn new_video_device(labels: &CaptureLabels, device_id: i32) -> (r: CaptureMode)
        ensures
            mode_view(r) == (2int, labels.video_device@, device_id as int, Seq::<char>::empty()),
    {
        CaptureMode::VideoDevice(labels.video_device.clone(), device_id, String::new())
    }

    /// The window with caption `win_caption`.
    pub fn new_window(labels: &CaptureLabels, win_caption: String) -> (r: CaptureMode)
        ensures
            mode_view(r) == (3int, labels.window@, 0int, win_caption@),
    {
        CaptureMode::Window(labels.window.clone(), win_caption)
    }

    /// Whether this is one of the modes used when none was chosen.
    pub fn is_default(&self, labels: &CaptureLabels) -> (b: bool)
        ensures
            b == default_modes(*labels).contains(mode_view(*self)),
    {
        proof {
            let d = default_modes(*labels);
            assert(d[0] == (0int, labels.empty@, 0int, Seq::<char>::empty()));
            assert(d[1] == (1int, labels.desktop@, 0int, Seq::<char>::empty()));
            assert(d[2] == (2int, labels.video_device@, -1int, Seq::<char>::empty()));
            assert(d[3] == (3int, labels.window@, 0int, Seq::<char>::empty()));
            reveal_strlit("");
        }
        match self {
            CaptureMode::Empty(l) => crate::data::same_text(l.as_str(), labels.empty.as_str()),
            CaptureMode::Desktop(l) => crate::data::same_text(l.as_str(), labels.desktop.as_str()),
            CaptureMode::VideoDevice(l, id, name) => {
                let r = crate::data::same_text(l.as_str(), labels.video_device.as_str()) && *id == -1 && name.as_str().unicode_len() == 0;
                proof {
                    if name@.len() == 0 {
                        assert(name@ =~= Seq::<char>::empty());
                    }
                }
                r
            },
            CaptureMode::Window(l, caption) => {
                let r = crate::data::same_text(l.as_str(), labels.window.as_str()) && caption.as_str().unicode_len() == 0;
                proof {
                    if caption@.len() == 0 {
                        assert(caption@ =~= Seq::<char>::empty());
                    }
                }
                r
            },
        }
    }

    /// Whether no frames are captured.
    pub fn is_empty(&self) -> (b: bool)
        ensures
            b == (mode_view(*self).0 == 0),
    {
        matches!(self, CaptureMode::Empty(_))
    }

    /// Whether the desktop is captured.
    pub fn is_desktop(&self) -> (b: bool)
        ensures
            b == (mode_view(*self).0 == 1),
    {
        matches!(self, CaptureMode::Desktop(_))
    }

    /// Whether a video device is captured.
    pub fn is_video_device(&self) -> (b: bool)
        ensures
            b == (mode_view(*self).0 == 2),
    {
        matches!(self, CaptureMode::VideoDevice(_, _, _))
    }

    /// Whether a window is captured.
    pub fn is_window(&self) -> (b: bool)
        ensures
            b == (mode_view(*self).0 == 3),
    {
        matches!(self, CaptureMode::Window(_, _))
    }

    /// The name shown for the mode.
    pub fn label(&self) -> (r: String)
        ensures
            r@ == mode_view(*self).1,
    {
        match self {
            CaptureMode::Empty(l) => l.clone(),
            CaptureMode::Desktop(l) => l.clone(),
            CaptureMode::VideoDevice(l, _, _) => l.clone(),
            CaptureMode::Window(l, _) => l.clone(),
        }
    }
}

/// Cutting out the whole frame gives the frame itself.
pub proof fn lemma_cut_whole(f: Frame)
    requires
        f.wf(),
    ensures
        f.contains(Rect { x: 0, y: 0, width: f.width, height: f.height }),
        f.cut(Rect { x: 0, y: 0, width: f.width, height: f.height }) == f.pixels(),
{
    let whole = Rect { x: 0, y: 0, width: f.width, height: f.height };
    assert(0 * f.channels == 0) by (nonlinear_arith);
    assert forall|i: int| 0 <= i < f.height implies #[trigger] f.cut(whole)[i] == f.pixels()[i] by {
        assert(f.rows@[i]@.len() == f.width * f.channels);
        assert(f.rows@[i]@.subrange(0, f.width * f.channels) =~= f.rows@[i]@);
    }
    assert(f.cut(whole) =~= f.pixels());
}

/// Every writer backend but the image-sequence one gives fourteen codec
/// choices.
pub proof fn lemma_candidate_count(backends: Seq<i32>)
    ensures
        candidate_order(backends).len() == 14 * backends.filter(|b: i32| b != CAP_IMAGES).len(),
    decreases backends.len(),
{
    reveal(Seq::filter);
    if backends.len() > 0 {
        lemma_candidate_count(backends.drop_last());
    }
}

} // verus!

