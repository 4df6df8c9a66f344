//! Hardware decoding back ends and the order in which they are tried.
use vstd::prelude::*;

verus! {

/// A video decoding back end.
#[derive(Debug, Clone, Copy, PartialEq, Eq, Structural)]
pub enum HWAccelType {
    /// Software decoding on the CPU.
    Software,
    DXVA2,
    D3D11VA,
    VAAPI,
    VideoToolbox,
    CUDA,
    QSV,
}

/// Operating system family the player runs on.
#[derive(Debug, Clone, Copy, PartialEq, Eq, Structural)]
pub enum TargetPlatform {
    Windows,
    MacOS,
    Linux,
    Other,
}

/// The back ends a platform offers, best first: its own (D3D11VA then
/// DXVA2 on Windows, VideoToolbox on macOS, VAAPI on Linux), then CUDA and
/// QSV, and software decoding last.
pub open spec fn available_spec(p: TargetPlatform) -> Seq<HWAccelType> {
    let native = match p {
        TargetPlatform::Windows => seq![HWAccelType::D3D11VA, HWAccelType::DXVA2],
        TargetPlatform::MacOS => seq![HWAccelType::VideoToolbox],
        TargetPlatform::Linux => seq![HWAccelType::VAAPI],
        TargetPlatform::Other => Seq::<HWAccelType>::empty(),
    };
    native + seq![HWAccelType::CUDA, HWAccelType::QSV, HWAccelType::Software]
}

/// The codec library's device type number of each hardware back end.
pub open spec fn device_type_spec(t: HWAccelType) -> Option<i32> {
    match t {
        HWAccelType::Software => None,
        HWAccelType::DXVA2 => Some(3),
        HWAccelType::D3D11VA => Some(4),
        HWAccelType::VAAPI => Some(2),
        HWAccelType::VideoToolbox => Some(6),
        HWAccelType::CUDA => Some(1),
        HWAccelType::QSV => Some(5),
    }
}

impl HWAccelType {
    /// Display name.
    pub fn name(&self) -> (r: &'static str)
        ensures
            r@ == match *self {
                HWAccelType::Software => "CPU软解"@,
                HWAccelType::DXVA2 => "DXVA2"@,
                HWAccelType::D3D11VA => "D3D11VA"@,
                HWAccelType::VAAPI => "VAAPI"@,
                HWAccelType::VideoToolbox => "VideoToolbox"@,
                HWAccelType::CUDA => "CUDA"@,
                HWAccelType::QSV => "QSV"@,
            },
    {
        match self {
            HWAccelType::Software => "CPU软解",
            HWAccelType::DXVA2 => "DXVA2",
            HWAccelType::D3D11VA => "D3D11VA",
            HWAccelType::VAAPI => "VAAPI",
            HWAccelType::VideoToolbox => "VideoToolbox",
            HWAccelType::CUDA => "CUDA",
            HWAccelType::QSV => "QSV",
        }
    }

    /// The codec library's device type number, `None` for software.
    pub fn to_ffmpeg_type(&self) -> (r: Option<i32>)
        ensures
            r == device_type_spec(*self),
    {
        match self {
            HWAccelType::Software => None,
            HWAccelType::DXVA2 => Some(3),
            HWAccelType::D3D11VA => Some(4),
            HWAccelType::VAAPI => Some(2),
            HWAccelType::VideoToolbox => Some(6),
            HWAccelType::CUDA => Some(1),
            HWAccelType::QSV => Some(5),
        }
    }

    /// A back end is supported when it is software or has a device type.
    fn check_support(hw: HWAccelType) -> (r: bool)
        ensures
            r == (hw == HWAccelType::Software || device_type_spec(hw) is Some),
    {
        if hw == HWAccelType::Software {
            return true;
        }
        hw.to_ffmpeg_type().is_some()
    }

    /// The back ends to try on `platform`, best first.
    pub fn detect_available(platform: TargetPlatform) -> (r: Vec<HWAccelType>)
        ensures
            r@ == available_spec(platform),
    {
        let mut v: Vec<HWAccelType> = Vec::new();
        match platform {
            TargetPlatform::Windows => {
                if Self::check_support(HWAccelType::D3D11VA) {
                    v.push(HWAccelType::D3D11VA);
                }
                if Self::check_support(HWAccelType::DXVA2) {
                    v.push(HWAccelType::DXVA2);
                }
            },
            TargetPlatform::MacOS => {
                if Self::check_support(HWAccelType::VideoToolbox) {
                    v.push(HWAccelType::VideoToolbox);
                }
            },
            TargetPlatform::Linux => {
                if Self::check_support(HWAccelType::VAAPI) {
                    v.push(HWAccelType::VAAPI);
                }
            },
            TargetPlatform::Other => {},
        }
        if Self::check_support(HWAccelType::CUDA) {
            v.push(HWAccelType::CUDA);
        }
        if Self::check_support(HWAccelType::QSV) {
            v.push(HWAccelType::QSV);
        }
        v.push(HWAccelType::Software);
        v
    }
}

} // verus!
