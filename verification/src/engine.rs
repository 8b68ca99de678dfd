//! Browser engine vocabulary: surfaces, frames, pixel formats and statuses.

use vstd::prelude::*;
use crate::text::{str_eq, owned, chars_of, concat_chars, string_of};

verus! {

/// Identifier of an engine instance.
pub type EngineInstanceId = u64;

/// Whether the engine's view has keyboard focus.
#[derive(Debug, Clone, Copy, PartialEq, Eq, Structural)]
pub enum FocusState {
    Focused,
    Unfocused,
}

/// Keyboard modifiers held during an input event.
#[derive(Debug, Clone, Copy, PartialEq, Eq, Structural)]
pub struct KeyModifiers {
    pub alt: bool,
    pub ctrl: bool,
    pub shift: bool,
    pub command: bool,
}

/// Input-method composition events.
#[derive(Debug, Clone, PartialEq, Eq)]
pub enum ImeEvent {
    CompositionStart,
    CompositionUpdate { text: String },
    CompositionEnd { text: String },
    Dismissed,
}

/// Clipboard access requested by a page.
#[derive(Debug, Clone, PartialEq, Eq)]
pub enum ClipboardRequest {
    Read,
    Write(String),
}

/// Kinds of modal dialogs a page may open.
#[derive(Debug, Clone, Copy, PartialEq, Eq, Structural)]
pub enum DialogKind {
    Alert,
    Confirm,
    Prompt,
}

/// Where a page asked a new window to open.
#[derive(Debug, Clone, Copy, PartialEq, Eq, Structural)]
pub enum WindowDisposition {
    ForegroundTab,
    BackgroundTab,
    NewWindow,
    Blocked,
}

/// Kinds of security warnings an engine reports.
#[derive(Debug, Clone, Copy, PartialEq, Eq, Structural)]
pub enum SecurityWarningKind {
    MixedContent,
    TlsError,
}

/// A handle to the surface an engine renders into.
#[derive(Debug, Clone, PartialEq, Eq)]
pub struct RenderSurfaceHandle {
    pub id: u64,
    pub label: String,
}

/// Lifecycle status of an engine.
#[derive(Debug, Clone, PartialEq, Eq)]
pub enum EngineStatus {
    NoEngine,
    Initializing,
    Ready,
    Error(String),
}

/// The text that the status shows in the shell.
pub open spec fn engine_status_text(s: EngineStatus) -> Seq<char> {
    match s {
        EngineStatus::NoEngine => "No engine"@,
        EngineStatus::Initializing => "Initializing"@,
        EngineStatus::Ready => "Ready"@,
        EngineStatus::Error(message) => "Error: "@ + message@,
    }
}

impl EngineStatus {
    /// The text shown for the status: "No engine", "Initializing", "Ready",
    /// or "Error: " followed by the message.
    pub fn display_text(&self) -> (r: String)
        ensures
            r@ == engine_status_text(*self),
    {
        match self {
            EngineStatus::NoEngine => owned("No engine"),
            EngineStatus::Initializing => owned("Initializing"),
            EngineStatus::Ready => owned("Ready"),
            EngineStatus::Error(message) => {
                let a = chars_of("Error: ");
                let b = chars_of(message.as_str());
                let c = concat_chars(a.as_slice(), b.as_slice());
                string_of(c.as_slice())
            },
        }
    }
}

/// Size and scale of the viewport an engine renders.
#[derive(Debug, Clone, PartialEq, Eq)]
pub struct RenderSurfaceMetadata {
    pub viewport_width: u32,
    pub viewport_height: u32,
    pub scale_factor_basis_points: u32,
}

/// Byte order of the pixels of a frame.
#[derive(Debug, Clone, Copy, PartialEq, Eq, Structural)]
pub enum PixelFormat {
    Rgba8,
    Bgra8,
}

/// The configuration name of a pixel format.
pub open spec fn pixel_format_name(f: PixelFormat) -> Seq<char> {
    match f {
        PixelFormat::Rgba8 => "rgba8"@,
        PixelFormat::Bgra8 => "bgra8"@,
    }
}

/// The pixel format a configuration value names; anything but "bgra8" is RGBA.
pub open spec fn pixel_format_from(value: Seq<char>) -> PixelFormat {
    if value == "bgra8"@ { PixelFormat::Bgra8 } else { PixelFormat::Rgba8 }
}

impl PixelFormat {
    /// Reads a configuration value; unknown values give RGBA.
    pub fn from_value(value: &str) -> (r: Self)
        ensures
            r == pixel_format_from(value@),
    {
        if str_eq(value, "bgra8") { PixelFormat::Bgra8 } else { PixelFormat::Rgba8 }
    }

    /// The configuration name of the format.
    pub fn as_str(&self) -> (r: &'static str)
        ensures
            r@ == pixel_format_name(*self),
    {
        match self {
            PixelFormat::Rgba8 => "rgba8",
            PixelFormat::Bgra8 => "bgra8",
        }
    }
}

/// Reading a pixel format's name gives the format back.
pub proof fn lemma_pixel_format_round_trip(f: PixelFormat)
    ensures
        pixel_format_from(pixel_format_name(f)) == f,
{
    reveal_strlit("rgba8");
    reveal_strlit("bgra8");
    assert("rgba8"@[0] != "bgra8"@[0]);
}

/// Whether a frame's color channels are premultiplied by alpha.
#[derive(Debug, Clone, Copy, PartialEq, Eq, Structural)]
pub enum AlphaMode {
    Straight,
    Premultiplied,
}

/// The configuration name of an alpha mode.
pub open spec fn alpha_mode_name(m: AlphaMode) -> Seq<char> {
    match m {
        AlphaMode::Straight => "straight"@,
        AlphaMode::Premultiplied => "premultiplied"@,
    }
}

/// The alpha mode a configuration value names; anything but
/// "premultiplied" is straight.
pub open spec fn alpha_mode_from(value: Seq<char>) -> AlphaMode {
    if value == "premultiplied"@ { AlphaMode::Premultiplied } else { AlphaMode::Straight }
}

impl AlphaMode {
    /// Reads a configuration value; unknown values give straight alpha.
    pub fn from_value(value: &str) -> (r: Self)
        ensures
            r == alpha_mode_from(value@),
    {
        if str_eq(value, "premultiplied") { AlphaMode::Premultiplied } else { AlphaMode::Straight }
    }

    /// The configuration name of the mode.
    pub fn as_str(&self) -> (r: &'static str)
        ensures
            r@ == alpha_mode_name(*self),
    {
        match self {
            AlphaMode::Straight => "straight",
            AlphaMode::Premultiplied => "premultiplied",
        }
    }
}

/// Reading an alpha mode's name gives the mode back.
pub proof fn lemma_alpha_mode_round_trip(m: AlphaMode)
    ensures
        alpha_mode_from(alpha_mode_name(m)) == m,
{
    reveal_strlit("straight");
    reveal_strlit("premultiplied");
    assert("straight"@.len() == 8);
    assert("premultiplied"@.len() == 13);
}

/// Color space of a frame's channels.
#[derive(Debug, Clone, Copy, PartialEq, Eq, Structural)]
pub enum ColorSpace {
    Srgb,
    Linear,
}

/// The configuration name of a color space.
pub open spec fn color_space_name(c: ColorSpace) -> Seq<char> {
    match c {
        ColorSpace::Srgb => "srgb"@,
        ColorSpace::Linear => "linear"@,
    }
}

/// The color space a configuration value names; anything but "linear" is sRGB.
pub open spec fn color_space_from(value: Seq<char>) -> ColorSpace {
    if value == "linear"@ { ColorSpace::Linear } else { ColorSpace::Srgb }
}

impl ColorSpace {
    /// Reads a configuration value; unknown values give sRGB.
    pub fn from_value(value: &str) -> (r: Self)
        ensures
            r == color_space_from(value@),
    {
        if str_eq(value, "linear") { ColorSpace::Linear } else { ColorSpace::Srgb }
    }

    /// The configuration name of the color space.
    pub fn as_str(&self) -> (r: &'static str)
        ensures
            r@ == color_space_name(*self),
    {
        match self {
            ColorSpace::Srgb => "srgb",
            ColorSpace::Linear => "linear",
        }
    }
}

/// Reading a color space's name gives the color space back.
pub proof fn lemma_color_space_round_trip(c: ColorSpace)
    ensures
        color_space_from(color_space_name(c)) == c,
{
    reveal_strlit("srgb");
    reveal_strlit("linear");
    assert("srgb"@.len() == 4);
    assert("linear"@.len() == 6);
}

/// A surface and the viewport it shows.
#[derive(Debug, Clone, PartialEq, Eq)]
pub struct RenderSurface {
    pub handle: RenderSurfaceHandle,
    pub metadata: RenderSurfaceMetadata,
}

/// One rendered frame: `height` rows of `stride_bytes` bytes each.
#[derive(Debug, Clone, PartialEq, Eq)]
pub struct EngineFrame {
    pub width: u32,
    pub height: u32,
    pub frame_number: u64,
    pub stride_bytes: usize,
    pub pixel_format: PixelFormat,
    pub alpha_mode: AlphaMode,
    pub color_space: ColorSpace,
    pub pixels: Vec<u8>,
}

/// Load progress of the active document.
#[derive(Debug, Clone, Copy, PartialEq, Eq, Structural)]
pub enum EngineLoadStatus {
    Started,
    HeadParsed,
    Complete,
}

/// The name of a load status.
pub open spec fn load_status_name(s: EngineLoadStatus) -> Seq<char> {
    match s {
        EngineLoadStatus::Started => "Started"@,
        EngineLoadStatus::HeadParsed => "HeadParsed"@,
        EngineLoadStatus::Complete => "Complete"@,
    }
}

impl EngineLoadStatus {
    /// The name of the status.
    pub fn as_str(&self) -> (r: &'static str)
        ensures
            r@ == load_status_name(*self),
    {
        match self {
            EngineLoadStatus::Started => "Started",
            EngineLoadStatus::HeadParsed => "HeadParsed",
            EngineLoadStatus::Complete => "Complete",
        }
    }
}

/// Health of the rendering pipeline.
#[derive(Debug, Clone, PartialEq, Eq)]
pub struct RenderHealth {
    pub resource_reader_ready: Option<bool>,
    pub resource_reader_path: Option<String>,
    pub upstream_active: bool,
    pub last_error: Option<String>,
}

/// A browser tab as the engine reports it.
#[derive(Debug, Clone, PartialEq, Eq)]
pub struct BrowserTab {
    pub id: u64,
    pub title: String,
    pub current_url: String,
}

/// Errors an engine reports.
#[derive(Debug, Clone, PartialEq, Eq)]
pub enum EngineError {
    Unsupported(&'static str),
    Startup(String),
}

/// The factory of the default engine backend.
#[derive(Debug, Clone, Copy)]
pub struct ServoEngineFactory;

} // verus!
