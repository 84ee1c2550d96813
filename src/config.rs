use vstd::prelude::*;

verus! {

/// Which OCR engine the capture engine uses.
#[derive(Clone, Copy, Debug, PartialEq, Eq, Structural)]
pub enum OcrEngine {
    /// A remote OCR service.
    Unstructured,
    /// Local OCR.
    Tesseract,
    /// The operating system's local OCR.
    WindowsNative,
}

/// Whether a configuration sends captured data off the machine.
pub open spec fn sends_off_machine(cloud_audio_on: bool, ocr: OcrEngine) -> bool {
    cloud_audio_on || ocr == OcrEngine::Unstructured
}

/// Whether the daemon should warn that data leaves the machine.
pub fn uses_cloud_processing(cloud_audio_on: bool, ocr: OcrEngine) -> (r: bool)
    ensures
        r == sends_off_machine(cloud_audio_on, ocr),
{
    cloud_audio_on || ocr == OcrEngine::Unstructured
}

/// The devices to capture from: none when audio is disabled; the requested
/// ones when any are; otherwise the default input device, then the default
/// output device where output capture is supported, each when there is one.
pub open spec fn selected_devices(
    disable_audio: bool,
    requested: Seq<u64>,
    default_input: Option<u64>,
    default_output: Option<u64>,
    output_supported: bool,
) -> Seq<u64> {
    if disable_audio {
        Seq::empty()
    } else if requested.len() > 0 {
        requested
    } else {
        let ins = match default_input {
            Some(d) => seq![d],
            None => Seq::empty(),
        };
        let outs = match default_output {
            Some(d) => if output_supported {
                seq![d]
            } else {
                Seq::empty()
            },
            None => Seq::empty(),
        };
        ins + outs
    }
}

/// Chooses the devices to capture from; see `selected_devices`.
pub fn select_audio_devices(
    disable_audio: bool,
    requested: &Vec<u64>,
    default_input: Option<u64>,
    default_output: Option<u64>,
    output_supported: bool,
) -> (r: Vec<u64>)
    ensures
        r@ == selected_devices(
            disable_audio,
            requested@,
            default_input,
            default_output,
            output_supported,
        ),
{
    let mut r: Vec<u64> = Vec::new();
    if disable_audio {
        return r;
    }
    if requested.len() > 0 {
        let mut k: usize = 0;
        while k < requested.len()
            invariant
                k <= requested@.len(),
                r@ == requested@.subrange(0, k as int),
            decreases requested@.len() - k,
        {
            r.push(requested[k]);
            assert(requested@.subrange(0, k as int + 1) =~= requested@.subrange(0, k as int).push(requested@[k as int]));
            k = k + 1;
        }
        assert(requested@.subrange(0, requested@.len() as int) =~= requested@);
        return r;
    }
    if let Some(d) = default_input {
        r.push(d);
    }
    if output_supported {
        if let Some(d) = default_output {
            r.push(d);
        }
    }
    let ghost want = selected_devices(disable_audio, requested@, default_input, default_output, output_supported);
    assert(r@ =~= want);
    r
}

} // verus!
