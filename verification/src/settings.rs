//! What the user can set.
use vstd::prelude::*;


verus! {

/// How the GPU's memory is handed out. The mode cannot change while the
/// viewer runs.
#[derive(Debug, Clone, Copy, PartialEq, Eq, Structural)]
pub enum GpuMemoryMode {
    /// The largest blocks: the most memory and the fastest allocation.
    Performance,
    /// Blocks that hold two 4K pictures each.
    Balanced,
    /// Small blocks: every 4K picture is allocated on its own.
    LowMemory,
}

impl GpuMemoryMode {
    /// The name of a mode.
    pub open spec fn name_spec(self) -> Seq<char> {
        match self {
            GpuMemoryMode::Performance => "Performance"@,
            GpuMemoryMode::Balanced => "Balanced"@,
            GpuMemoryMode::LowMemory => "LowMemory"@,
        }
    }

    /// The name of a mode.
    pub fn name(self) -> (r: String)
        ensures
            r@ == self.name_spec(),
    {
        match self {
            GpuMemoryMode::Performance => "Performance".to_owned(),
            GpuMemoryMode::Balanced => "Balanced".to_owned(),
            GpuMemoryMode::LowMemory => "LowMemory".to_owned(),
        }
    }
}

/// What pictures are sorted by.
#[derive(Debug, Clone, Copy, PartialEq, Eq, Structural)]
pub enum ImageSortKey {
    Name,
    Extension,
    Modified,
    Created,
    Size,
}

#[derive(Debug, Clone, Copy, PartialEq, Eq, Structural)]
pub enum SortDirection {
    Ascending,
    Descending,
}

/// The order of the pictures of a folder.
#[derive(Debug, Clone, Copy, PartialEq, Eq, Structural)]
pub struct ImageSortOrder {
    pub key: ImageSortKey,
    pub direction: SortDirection,
}

/// Which pictures of a folder are listed, and in what order.
#[derive(Debug, Clone, Copy, PartialEq, Eq, Structural)]
pub struct ImageDiscoveryOptions {
    /// Whether the folders inside the folder are listed too.
    pub recursive: bool,
    /// Whether files and folders whose name starts with a dot are listed.
    pub include_hidden: bool,
    pub sort_order: ImageSortOrder,
}

impl Default for ImageDiscoveryOptions {
    fn default() -> (r: Self)
        ensures
            r == (ImageDiscoveryOptions {
                recursive: false,
                include_hidden: false,
                sort_order: ImageSortOrder { key: ImageSortKey::Name, direction: SortDirection::Ascending },
            }),
    {
        ImageDiscoveryOptions {
            recursive: false,
            include_hidden: false,
            sort_order: ImageSortOrder { key: ImageSortKey::Name, direction: SortDirection::Ascending },
        }
    }
}

/// The settings that are kept between two launches.
#[derive(Debug, Clone, Copy, PartialEq, Eq, Structural)]
pub struct AppSettings {
    pub show_footer: bool,
    pub show_fps: bool,
    pub show_cache_overlay: bool,
    /// How many pictures are decoded ahead on each side.
    pub cache_count: usize,
    pub lru_capacity: usize,
    /// How many pictures are decoded at the same time.
    pub decode_threads: usize,
    /// The memory budget of the decode cache.
    pub lru_budget_mb: usize,
    pub gpu_memory_mode: GpuMemoryMode,
    /// The memory budget of the slider's thumbnails, 0 for no limit.
    pub preview_budget_mb: usize,
}

impl Default for AppSettings {
    fn default() -> (r: Self)
        ensures
            r.show_footer,
            r.show_fps,
            !r.show_cache_overlay,
            r.cache_count == 5,
            r.lru_capacity == 50,
            r.decode_threads == 10,
            r.lru_budget_mb == 1024,
            r.gpu_memory_mode == GpuMemoryMode::Balanced,
            r.preview_budget_mb == 200,
    {
        AppSettings {
            show_footer: true,
            show_fps: true,
            show_cache_overlay: false,
            cache_count: 5,
            lru_capacity: 50,
            decode_threads: 10,
            lru_budget_mb: 1024,
            gpu_memory_mode: GpuMemoryMode::Balanced,
            preview_budget_mb: 200,
        }
    }
}

/// What a frame of the settings dialog did.
#[derive(Debug, Clone, Copy, PartialEq, Eq, Structural)]
pub struct SettingsFrame {
    pub backdrop_clicked: bool,
    pub escape_pressed: bool,
}

/// What follows from a frame of the settings dialog.
#[derive(Debug, Clone, Copy, PartialEq, Eq, Structural)]
pub struct SettingsOutcome {
    /// Whether the dialog stays open.
    pub show: bool,
    /// Whether the caches have to be resized.
    pub performance_changed: bool,
}

/// What follows from a frame of the settings dialog.
pub open spec fn outcome_of(show: bool, before: AppSettings, after: AppSettings, frame: SettingsFrame) -> SettingsOutcome {
    SettingsOutcome {
        show: show && !frame.backdrop_clicked && !frame.escape_pressed,
        performance_changed: show && (before.cache_count != after.cache_count || before.lru_capacity
            != after.lru_capacity),
    }
}

/// Either of a click beside the dialog and Escape closes it, and nothing else
/// does. A new cache size and a new capacity each have the caches resized.
pub proof fn law_what_closes_the_settings(before: AppSettings, after: AppSettings, frame: SettingsFrame)
    ensures
        !outcome_of(false, before, after, frame).show,
        !outcome_of(false, before, after, frame).performance_changed,
        frame.backdrop_clicked ==> !outcome_of(true, before, after, frame).show,
        frame.escape_pressed ==> !outcome_of(true, before, after, frame).show,
        !frame.backdrop_clicked && !frame.escape_pressed ==> outcome_of(true, before, after, frame).show,
        before.cache_count != after.cache_count ==> outcome_of(true, before, after, frame).performance_changed,
        before.lru_capacity != after.lru_capacity ==> outcome_of(true, before, after, frame).performance_changed,
        !outcome_of(true, before, before, frame).performance_changed,
{
}

/// What follows from a frame of the settings dialog: a click beside it or
/// Escape closes it, and a new cache size or capacity has the caches resized.
/// A dialog that was not open changes nothing.
pub fn settings_outcome(show: bool, before: &AppSettings, after: &AppSettings, frame: SettingsFrame) -> (r: SettingsOutcome)
    ensures
        r == outcome_of(show, *before, *after, frame),
{
    SettingsOutcome {
        show: show && !frame.backdrop_clicked && !frame.escape_pressed,
        performance_changed: show && (before.cache_count != after.cache_count || before.lru_capacity
            != after.lru_capacity),
    }
}

} // verus!
