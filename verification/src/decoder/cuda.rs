//! Colour conversion of frames that stay on the GPU.
//!
//! Frames tagged as BT.709 are converted in one step. All others are taken for BT.601 of limited
//! range, for which there is no single step: their chroma is first spread over two planes in
//! scratch memory, and these planes are converted then.
use vstd::prelude::*;

verus! {

/// A library that is loaded when it is needed.
#[derive(Clone, Copy, Debug, PartialEq, Eq, Structural)]
pub enum CudaLibrary {
    Cudart,
    Nppc,
    Nppicc,
}

/// The names of a library.
pub open spec fn names_of(library: CudaLibrary) -> Seq<&'static str> {
    match library {
        CudaLibrary::Cudart => seq![
            "libcudart.so",
            "libcudart.so.13",
            "libcudart.so.12",
            "libcudart.so.11.0",
        ],
        CudaLibrary::Nppc => seq![
            "libnppc.so",
            "libnppc.so.13",
            "libnppc.so.12",
            "libnppc.so.11",
        ],
        CudaLibrary::Nppicc => seq![
            "libnppicc.so",
            "libnppicc.so.13",
            "libnppicc.so.12",
            "libnppicc.so.11",
        ],
    }
}

/// A library is looked for under its own name first, and then under those of its versions, the
/// latest one first.
pub proof fn law_libraries_are_looked_for(library: CudaLibrary)
    ensures
        ({
            let names = names_of(library);
            let own = match library {
                CudaLibrary::Cudart => "libcudart.so"@,
                CudaLibrary::Nppc => "libnppc.so"@,
                CudaLibrary::Nppicc => "libnppicc.so"@,
            };
            &&& names.len() == 4
            &&& names[0]@ == own
            &&& names[1]@ == own + ".13"@
            &&& names[2]@ == own + ".12"@
            &&& names[3]@ == own + if library is Cudart {
                ".11.0"@
            } else {
                ".11"@
            }
        }),
{
    reveal_strlit(".13");
    reveal_strlit(".12");
    reveal_strlit(".11");
    reveal_strlit(".11.0");
    let names = names_of(library);
    match library {
        CudaLibrary::Cudart => {
            reveal_strlit("libcudart.so");
            reveal_strlit("libcudart.so.13");
            reveal_strlit("libcudart.so.12");
            reveal_strlit("libcudart.so.11.0");
            assert(names[1]@ =~= "libcudart.so"@ + ".13"@);
            assert(names[2]@ =~= "libcudart.so"@ + ".12"@);
            assert(names[3]@ =~= "libcudart.so"@ + ".11.0"@);
        },
        CudaLibrary::Nppc => {
            reveal_strlit("libnppc.so");
            reveal_strlit("libnppc.so.13");
            reveal_strlit("libnppc.so.12");
            reveal_strlit("libnppc.so.11");
            assert(names[1]@ =~= "libnppc.so"@ + ".13"@);
            assert(names[2]@ =~= "libnppc.so"@ + ".12"@);
            assert(names[3]@ =~= "libnppc.so"@ + ".11"@);
        },
        CudaLibrary::Nppicc => {
            reveal_strlit("libnppicc.so");
            reveal_strlit("libnppicc.so.13");
            reveal_strlit("libnppicc.so.12");
            reveal_strlit("libnppicc.so.11");
            assert(names[1]@ =~= "libnppicc.so"@ + ".13"@);
            assert(names[2]@ =~= "libnppicc.so"@ + ".12"@);
            assert(names[3]@ =~= "libnppicc.so"@ + ".11"@);
        },
    }
}

/// The names under which a library is looked for, in this order.
pub fn library_names(library: CudaLibrary) -> (names: Vec<&'static str>)
    ensures
        names@ == names_of(library),
{
    let names: Vec<&'static str> = match library {
        CudaLibrary::Cudart => vec![
            "libcudart.so",
            "libcudart.so.13",
            "libcudart.so.12",
            "libcudart.so.11.0",
        ],
        CudaLibrary::Nppc => vec![
            "libnppc.so",
            "libnppc.so.13",
            "libnppc.so.12",
            "libnppc.so.11",
        ],
        CudaLibrary::Nppicc => vec![
            "libnppicc.so",
            "libnppicc.so.13",
            "libnppicc.so.12",
            "libnppicc.so.11",
        ],
    };
    assert(names@ =~= names_of(library));
    names
}

/// Something that the GPU is asked to do.
#[derive(Clone, Copy, Debug, PartialEq, Eq, Structural)]
pub enum CudaStep {
    SetDevice,
    GetStreamContext,
    AllocateScratch,
    /// From interleaved chroma to RGB, BT.709.
    Nv12ToRgb709,
    /// Spreads interleaved chroma over two planes.
    Nv12ToYuv420,
    /// From three planes to RGB, BT.601.
    YCbCr420ToRgb,
    Synchronize,
    FreeScratch,
}

/// A step failed with this status.
#[derive(Clone, Copy, Debug, PartialEq, Eq, Structural)]
pub struct CudaFault {
    pub step: CudaStep,
    pub status: i32,
}

/// Steps that are done one after the other, as long as each succeeds.
#[derive(Debug)]
pub struct CudaRun {
    pub steps: Vec<CudaStep>,
    pub done: usize,
}

/// What comes next, once `done` steps are done.
pub open spec fn step_due(steps: Seq<CudaStep>, done: int) -> Option<CudaStep> {
    if done < steps.len() {
        Some(steps[done])
    } else {
        None
    }
}

/// What comes of a step that gave this status, and how many steps are done then.
pub open spec fn step_reported(steps: Seq<CudaStep>, done: int, status: i32) -> (
    Result<(), CudaFault>,
    int,
) {
    if status == 0 {
        (Ok(()), done + 1)
    } else {
        (Err(CudaFault { step: steps[done], status }), done)
    }
}

/// Steps are done in their order, each once, up to the first that gives another status than zero;
/// that one and its status are told.
pub proof fn law_steps_are_done_in_order(steps: Seq<CudaStep>, done: int, status: i32)
    requires
        0 <= done < steps.len(),
    ensures
        step_due(steps, done) == Some(steps[done]),
        step_due(steps, steps.len() as int) is None,
        step_reported(steps, done, status).0 is Ok <==> status == 0,
        status == 0 ==> step_reported(steps, done, status).1 == done + 1,
        step_reported(steps, done, status) matches (Err(fault), stopped) ==> fault.step
            == steps[done] && fault.status == status && stopped == done,
{
}

impl CudaRun {
    pub open spec fn wf(self) -> bool {
        self.done <= self.steps@.len()
    }

    pub fn new(steps: Vec<CudaStep>) -> (run: CudaRun)
        ensures
            run.wf(),
            run.steps == steps,
            run.done == 0,
    {
        CudaRun { steps, done: 0 }
    }

    /// The next step; `None` once all are done.
    pub fn next(&self) -> (r: Option<CudaStep>)
        requires
            self.wf(),
        ensures
            r == step_due(self.steps@, self.done as int),
    {
        if self.done < self.steps.len() {
            Some(self.steps[self.done])
        } else {
            None
        }
    }

    /// Takes in the status of the next step. Zero is success; with anything else the run ends.
    pub fn report(&mut self, status: i32) -> (r: Result<(), CudaFault>)
        requires
            old(self).wf(),
            old(self).done < old(self).steps@.len(),
        ensures
            final(self).wf(),
            final(self).steps == old(self).steps,
            (r, final(self).done as int) == step_reported(
                old(self).steps@,
                old(self).done as int,
                status,
            ),
    {
        if status != 0 {
            return Err(CudaFault { step: self.steps[self.done], status });
        }
        assert(self.steps.len() == self.steps@.len());
        self.done = self.done + 1;
        Ok(())
    }
}

/// Where the planes of the scratch memory begin, and how far apart their rows are.
#[derive(Clone, Copy, Debug, PartialEq, Eq, Structural)]
pub struct ScratchLayout {
    pub y: u64,
    pub cb: u64,
    pub cr: u64,
    pub y_step: i32,
    pub chroma_step: i32,
}

/// One conversion, ready to be asked for.
#[derive(Clone, Copy, Debug, PartialEq, Eq, Structural)]
pub struct NppConversion {
    pub src_pitch: i32,
    pub dst_step: i32,
    pub roi_width: i32,
    pub roi_height: i32,
    /// The planes in between, where there are any.
    pub scratch: Option<ScratchLayout>,
}

/// Converts frames to rows of packed RGB on the GPU.
#[derive(Clone, Copy, Debug, PartialEq, Eq, Structural)]
pub struct CudaNv12ToRgb {
    pub device: i32,
    /// The source is tagged as BT.709; it is taken for BT.601 otherwise.
    pub use_bt709: bool,
    pub dst_width: i32,
    pub dst_height: i32,
}

/// A frame that is to be converted.
#[derive(Clone, Copy, Debug, PartialEq, Eq, Structural)]
pub struct ConvertCall {
    pub converter: CudaNv12ToRgb,
    pub src_pitch: i32,
}

/// The bytes of scratch memory for frames of this size: a full plane and two of a quarter.
pub open spec fn scratch_bytes(width: int, height: int) -> int {
    width * height * 3 / 2
}

/// Where the planes of the scratch memory are.
pub open spec fn scratch_layout(width: i32, height: i32) -> ScratchLayout {
    ScratchLayout {
        y: 0,
        cb: (width * height) as u64,
        cr: (width * height + (width / 2) * (height / 2)) as u64,
        y_step: width,
        chroma_step: (width / 2) as i32,
    }
}

/// The steps before the first conversion.
pub open spec fn setup_steps(use_bt709: bool) -> Seq<CudaStep> {
    if use_bt709 {
        seq![CudaStep::SetDevice, CudaStep::GetStreamContext]
    } else {
        seq![CudaStep::SetDevice, CudaStep::GetStreamContext, CudaStep::AllocateScratch]
    }
}

/// The steps of a conversion.
pub open spec fn conversion_steps(use_bt709: bool) -> Seq<CudaStep> {
    if use_bt709 {
        seq![CudaStep::SetDevice, CudaStep::Nv12ToRgb709]
    } else {
        seq![CudaStep::SetDevice, CudaStep::Nv12ToYuv420, CudaStep::YCbCr420ToRgb]
    }
}

/// The steps before the output is handed out.
pub open spec fn wait_steps() -> Seq<CudaStep> {
    seq![CudaStep::SetDevice, CudaStep::Synchronize]
}

/// The steps at the end.
pub open spec fn release_steps(use_bt709: bool) -> Seq<CudaStep> {
    if use_bt709 {
        seq![]
    } else {
        seq![CudaStep::SetDevice, CudaStep::FreeScratch]
    }
}

impl CudaNv12ToRgb {
    /// The sides are not negative, and a row of packed RGB has a length that can be told.
    pub open spec fn wf(self) -> bool {
        &&& 0 <= self.dst_width
        &&& 0 <= self.dst_height
        &&& self.dst_width * 3 <= i32::MAX
    }

    pub fn new(device: i32, use_bt709: bool, dst_width: i32, dst_height: i32) -> (converter:
        CudaNv12ToRgb)
        ensures
            converter == (CudaNv12ToRgb { device, use_bt709, dst_width, dst_height }),
    {
        CudaNv12ToRgb { device, use_bt709, dst_width, dst_height }
    }

    /// The bytes of scratch memory that the conversion needs, if it needs any.
    pub open spec fn scratch_needed(self) -> Option<u64> {
        if self.use_bt709 {
            None
        } else {
            Some(scratch_bytes(self.dst_width as int, self.dst_height as int) as u64)
        }
    }

    /// The scratch memory that the conversion needs, if it needs any.
    pub fn scratch_size(&self) -> (r: Option<u64>)
        requires
            self.wf(),
        ensures
            r == self.scratch_needed(),
            !self.use_bt709 ==> scratch_bytes(self.dst_width as int, self.dst_height as int)
                <= u64::MAX,
    {
        if self.use_bt709 {
            return None;
        }
        proof {
            lemma_area(self.dst_width as int, self.dst_height as int);
        }
        let area: u64 = self.dst_width as u64 * self.dst_height as u64;
        Some(area * 3 / 2)
    }

    /// What is done once, before the first conversion.
    pub fn setup(&self) -> (run: CudaRun)
        ensures
            run.wf(),
            run.done == 0,
            run.steps@ == setup_steps(self.use_bt709),
    {
        let mut steps: Vec<CudaStep> = vec![CudaStep::SetDevice, CudaStep::GetStreamContext];
        if !self.use_bt709 {
            steps.push(CudaStep::AllocateScratch);
        }
        assert(steps@ =~= setup_steps(self.use_bt709));
        CudaRun::new(steps)
    }

    /// A frame whose rows are `src_pitch` bytes apart is to be converted.
    pub fn convert_frame(&self, src_pitch: i32) -> (call: ConvertCall)
        ensures
            call == (ConvertCall { converter: *self, src_pitch }),
    {
        ConvertCall { converter: *self, src_pitch }
    }

    /// What is done before the output is handed out.
    pub fn synchronize(&self) -> (run: CudaRun)
        ensures
            run.wf(),
            run.done == 0,
            run.steps@ == wait_steps(),
    {
        let steps: Vec<CudaStep> = vec![CudaStep::SetDevice, CudaStep::Synchronize];
        assert(steps@ =~= wait_steps());
        CudaRun::new(steps)
    }

    /// What is done at the end: scratch memory is given back.
    pub fn release(&self) -> (run: CudaRun)
        ensures
            run.wf(),
            run.done == 0,
            run.steps@ == release_steps(self.use_bt709),
    {
        let mut steps: Vec<CudaStep> = Vec::new();
        if !self.use_bt709 {
            steps.push(CudaStep::SetDevice);
            steps.push(CudaStep::FreeScratch);
        }
        assert(steps@ =~= release_steps(self.use_bt709));
        CudaRun::new(steps)
    }
}

impl ConvertCall {
    /// The conversion into rows of packed RGB.
    pub open spec fn conversion(self) -> NppConversion {
        NppConversion {
            src_pitch: self.src_pitch,
            dst_step: (self.converter.dst_width * 3) as i32,
            roi_width: self.converter.dst_width,
            roi_height: self.converter.dst_height,
            scratch: if self.converter.use_bt709 {
                None
            } else {
                Some(scratch_layout(self.converter.dst_width, self.converter.dst_height))
            },
        }
    }

    /// The conversion into rows of packed RGB, and the steps that it takes.
    pub fn into_dst(self) -> (r: (NppConversion, CudaRun))
        requires
            self.converter.wf(),
        ensures
            r.0 == self.conversion(),
            r.1.wf(),
            r.1.done == 0,
            r.1.steps@ == conversion_steps(self.converter.use_bt709),
    {
        let width: i32 = self.converter.dst_width;
        let height: i32 = self.converter.dst_height;
        let mut steps: Vec<CudaStep> = vec![CudaStep::SetDevice];
        let scratch = if self.converter.use_bt709 {
            steps.push(CudaStep::Nv12ToRgb709);
            None
        } else {
            steps.push(CudaStep::Nv12ToYuv420);
            steps.push(CudaStep::YCbCr420ToRgb);
            proof {
                lemma_area(width as int, height as int);
                lemma_area(width as int / 2, height as int / 2);
            }
            let area: u64 = width as u64 * height as u64;
            let quarter: u64 = (width as u64 / 2) * (height as u64 / 2);
            Some(
                ScratchLayout {
                    y: 0,
                    cb: area,
                    cr: area + quarter,
                    y_step: width,
                    chroma_step: width / 2,
                },
            )
        };
        assert(steps@ =~= conversion_steps(self.converter.use_bt709));
        let conversion = NppConversion {
            src_pitch: self.src_pitch,
            dst_step: width * 3,
            roi_width: width,
            roi_height: height,
            scratch,
        };
        (conversion, CudaRun::new(steps))
    }
}

proof fn lemma_area(width: int, height: int)
    requires
        0 <= width <= i32::MAX,
        0 <= height <= i32::MAX,
    ensures
        0 <= width * height <= i32::MAX * i32::MAX,
{
    assert(0 <= width * height <= i32::MAX * i32::MAX) by (nonlinear_arith)
        requires
            0 <= width <= i32::MAX,
            0 <= height <= i32::MAX,
    ;
}

/// Whatever is done on the GPU is done on the device of the converter: it is set first. Scratch
/// memory is allocated, used and given back if and only if the source is not tagged as BT.709. A
/// source that is tagged so is converted in one step, any other by way of three planes.
pub proof fn law_what_the_gpu_does(call: ConvertCall)
    ensures
        ({
            let direct = call.converter.use_bt709;
            let steps = conversion_steps(direct);
            &&& setup_steps(direct)[0] == CudaStep::SetDevice
            &&& steps[0] == CudaStep::SetDevice
            &&& wait_steps()[0] == CudaStep::SetDevice
            &&& wait_steps().len() == 2 && wait_steps()[1] == CudaStep::Synchronize
            &&& release_steps(direct).len() > 0 ==> release_steps(direct)[0] == CudaStep::SetDevice
            &&& setup_steps(direct).contains(CudaStep::GetStreamContext)
            &&& setup_steps(direct).contains(CudaStep::AllocateScratch) <==> !direct
            &&& release_steps(direct).contains(CudaStep::FreeScratch) <==> !direct
            &&& call.converter.scratch_needed() is Some <==> !direct
            &&& call.conversion().scratch is Some <==> !direct
            &&& direct ==> steps.len() == 2 && steps[1] == CudaStep::Nv12ToRgb709
            &&& !direct ==> {
                &&& steps.len() == 3
                &&& steps[1] == CudaStep::Nv12ToYuv420
                &&& steps[2] == CudaStep::YCbCr420ToRgb
            }
        }),
{
    let direct = call.converter.use_bt709;
    assert(setup_steps(direct)[1] == CudaStep::GetStreamContext);
    if !direct {
        assert(setup_steps(direct)[2] == CudaStep::AllocateScratch);
        assert(release_steps(direct)[1] == CudaStep::FreeScratch);
    }
}

/// A conversion fills the whole output: its rows are three bytes for each pixel, and there are as
/// many of them as the output is high. It reads rows that are as far apart as the frame's. What lies
/// in between has one byte for each pixel and one for each four of them in two more planes.
pub proof fn law_conversions_fill_the_output(call: ConvertCall)
    requires
        call.converter.wf(),
    ensures
        call.conversion().src_pitch == call.src_pitch,
        call.conversion().roi_width == call.converter.dst_width,
        call.conversion().roi_height == call.converter.dst_height,
        call.conversion().dst_step == 3 * call.converter.dst_width,
        call.conversion().scratch matches Some(layout) ==> {
            let w = call.converter.dst_width;
            let h = call.converter.dst_height;
            &&& layout.y == 0 && layout.y_step == w
            &&& layout.cb == w * h
            &&& layout.cr - layout.cb == (w / 2) * (h / 2)
            &&& 2 * layout.chroma_step == w || 2 * layout.chroma_step + 1 == w
        },
        call.converter.scratch_needed() matches Some(bytes) ==> {
            let area = call.converter.dst_width * call.converter.dst_height;
            3 * area - 1 <= 2 * bytes <= 3 * area
        },
{
    let w = call.converter.dst_width as int;
    let h = call.converter.dst_height as int;
    lemma_area(w, h);
    lemma_area(w / 2, h / 2);
}

/// The planes of the scratch memory do not overlap and lie inside it, whatever the size of the
/// frames.
pub proof fn law_scratch_planes_fit(width: i32, height: i32)
    requires
        0 <= width,
        0 <= height,
    ensures
        ({
            let layout = scratch_layout(width, height);
            let quarter = (width / 2) * (height / 2);
            &&& layout.y + width * height <= layout.cb
            &&& layout.cb + quarter <= layout.cr
            &&& layout.cr + quarter <= scratch_bytes(width as int, height as int)
            &&& layout.chroma_step * (height / 2) == quarter
        }),
{
    let w = width as int;
    let h = height as int;
    lemma_area(w, h);
    lemma_area(w / 2, h / 2);
    assert(4 * ((w / 2) * (h / 2)) <= w * h) by (nonlinear_arith)
        requires
            2 * (w / 2) <= w,
            2 * (h / 2) <= h,
            0 <= w / 2,
            0 <= h / 2,
    ;
    assert(w * h * 3 == w * h + w * h + w * h);
}

} // verus!
