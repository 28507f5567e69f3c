use vstd::prelude::*;
use vstd::utf8::{valid_utf8, decode_utf8};
use vstd::string::StringSliceAdditionalSpecFns;
use crate::assets::{decode_wallpaper, fallback_color, png_decodes, scaled_png};
use crate::scene::{
    Command, CommandView, DrawOp, Scene, all_small, cmd_painted, cmds, dock_cmds, draw_dock, draw_files_app,
    draw_netsurf_placeholder, draw_terminal_body, draw_titlebar, draw_topbar, files_app_cmds, netsurf_cmds,
    paint_command, push_fill, term_cmds, title_of, titlebar_cmds, topbar_cmds, window_title,
};
use crate::raster::{Color, plotted, put_pixel};
use crate::geometry::{
    Client, Rect, FILES_INDEX, NETSURF_INDEX, TERM_INDEX, WINDOW_COUNT, client_layout, dock_geometry,
    dock_rect, layout_fits, place_client, content_height, browser_width, side_x, side_width, div_trunc,
    max_int, min_int,
};

verus! {

/// An entry of the Files listing: its name and its kind (0 folder, 1 file,
/// 2 text, 3 configuration).
#[derive(Debug)]
pub struct FileEntry {
    pub name: String,
    pub kind: u32,
}

/// The model of a listing entry.
pub struct FileView {
    pub name: Seq<char>,
    pub kind: u32,
}

impl View for FileEntry {
    type V = FileView;

    open spec fn view(&self) -> FileView {
        FileView { name: self.name@, kind: self.kind }
    }
}

/// The models of a list of entries.
pub open spec fn entries_view(v: Seq<FileEntry>) -> Seq<FileView> {
    v.map_values(|e: FileEntry| e@)
}

/// The models of a list of strings.
pub open spec fn strings_view(v: Seq<String>) -> Seq<Seq<char>> {
    v.map_values(|s: String| s@)
}

/// The listing shown before the host sends one.
pub open spec fn default_listing() -> Seq<FileView> {
    seq![
        FileView { name: "README.md"@, kind: 2 },
        FileView { name: "hello.txt"@, kind: 2 },
        FileView { name: "data.txt"@, kind: 2 },
        FileView { name: "config.json"@, kind: 3 },
    ]
}

/// The listing shown before the host sends one: three text files and a
/// configuration file.
pub fn default_files() -> (v: Vec<FileEntry>)
    ensures
        entries_view(v@) == default_listing(),
        forall|i: int| 0 <= i < v@.len() ==> #[trigger] v@[i]@.kind <= 3 && v@[i]@.name.len() > 0,
{
    let mut v: Vec<FileEntry> = Vec::new();
    v.push(FileEntry { name: String::from_str("README.md"), kind: 2 });
    v.push(FileEntry { name: String::from_str("hello.txt"), kind: 2 });
    v.push(FileEntry { name: String::from_str("data.txt"), kind: 2 });
    v.push(FileEntry { name: String::from_str("config.json"), kind: 3 });
    proof {
        reveal_strlit("README.md");
        reveal_strlit("hello.txt");
        reveal_strlit("data.txt");
        reveal_strlit("config.json");
    }
    assert(entries_view(v@) =~= default_listing());
    v
}


/// Capacity of the buffer the host writes a folder path into.
pub const PATH_CAP: usize = 160;
/// Capacity of the buffer the host writes a file name or a terminal line into.
pub const NAME_CAP: usize = 96;
/// Most entries the Files listing holds.
pub const MAX_FILES: usize = 64;
/// Most lines the terminal log keeps.
pub const MAX_TERM_LINES: usize = 40;

/// What `String::from_utf8_lossy` makes of these bytes.
pub uninterp spec fn lossy_utf8(bytes: Seq<u8>) -> Seq<char>;

/// Calls `String::from_utf8_lossy` and takes the text as an owned string.
/// The contract claims that the text depends on the bytes alone, that valid
/// UTF-8 decodes to its characters, and that the text is empty exactly when
/// the bytes are (each invalid sequence becomes a replacement character).
#[verifier::external_body]
fn utf8_lossy(bytes: &[u8]) -> (t: String)
    ensures
        t@ == lossy_utf8(bytes@),
        valid_utf8(bytes@) ==> t@ == decode_utf8(bytes@),
        (t@.len() == 0) == (bytes@.len() == 0),
{
    String::from_utf8_lossy(bytes).to_string()
}

/// Every coordinate of the rectangle lies in `[0, b]`.
pub open spec fn in_box(r: Rect, b: int) -> bool {
    &&& 0 <= r.x <= b
    &&& 0 <= r.y <= b
    &&& 0 <= r.width <= b
    &&& 0 <= r.height <= b
}

/// The model of the window manager's session.
pub struct StateView {
    /// Screen width in pixels.
    pub width: u32,
    /// Screen height in pixels.
    pub height: u32,
    /// Wallpaper pixels, RGBA.
    pub wallpaper: Seq<u8>,
    /// The frame last drawn, RGBA.
    pub frame: Seq<u8>,
    /// The three window slots.
    pub clients: Seq<Client>,
    /// The focused window slot.
    pub active: u32,
    /// The host's clock, in milliseconds.
    pub tick: u32,
    /// Counts the changes of window geometry or visibility the host must follow.
    pub layout_version: u32,
    /// 1 once a session is running.
    pub running: u32,
    /// Where the dock stands.
    pub dock: Rect,
    /// The folder the Files window shows.
    pub files_path: Seq<char>,
    /// The entries of that folder.
    pub files: Seq<FileView>,
    /// The selected row of the listing, or -1 for none.
    pub files_selected: i32,
    /// 1 when the Files window is shown.
    pub files_visible: u32,
    /// The terminal's lines, oldest first.
    pub term_lines: Seq<Seq<char>>,
    /// 1 when the terminal is shown.
    pub term_visible: u32,
    /// 1 when the browser is shown.
    pub netsurf_visible: u32,
}

impl StateView {
    /// What every operation keeps: the screen size within its clamps, a
    /// valid focused slot, 0/1 flags, window and dock geometry on screen,
    /// at most 64 non-empty listing entries of kinds 0 to 3, a selection
    /// that is -1 or an existing row (or 0 while the listing is empty), at most 40 terminal lines, and frames
    /// no larger than the largest screen.
    pub open spec fn well_formed(self) -> bool {
        &&& 320 <= self.width <= 1600
        &&& 180 <= self.height <= 1000
        &&& self.clients.len() == WINDOW_COUNT
        &&& self.active < WINDOW_COUNT
        &&& self.running <= 1
        &&& self.files_visible <= 1
        &&& self.term_visible <= 1
        &&& self.netsurf_visible <= 1
        &&& forall|i: int|
            0 <= i < WINDOW_COUNT ==> {
                &&& (#[trigger] self.clients[i]).mapped <= 1
                &&& in_box(self.clients[i].frame, 16384)
                &&& in_box(self.clients[i].content, 16384)
            }
        &&& in_box(self.dock, 4096)
        &&& self.files.len() <= MAX_FILES
        &&& forall|i: int| 0 <= i < self.files.len() ==> #[trigger] self.files[i].kind <= 3 && self.files[i].name.len() > 0
        &&& -1 <= self.files_selected
        &&& self.files.len() > 0 ==> self.files_selected < self.files.len()
        &&& self.files.len() == 0 ==> self.files_selected <= 0
        &&& self.term_lines.len() <= MAX_TERM_LINES
        &&& self.frame.len() <= 6_400_000
        &&& self.wallpaper.len() <= 6_400_000
    }
}

/// The session of the window manager: screen, windows, focus, the Files
/// listing, the terminal log and the frame buffers.
pub struct State {
    width: u32,
    height: u32,
    wallpaper: Vec<u8>,
    frame: Vec<u8>,
    clients: [Client; WINDOW_COUNT],
    active: u32,
    tick: u32,
    layout_version: u32,
    running: u32,
    dock: Rect,
    files_path: String,
    files: Vec<FileEntry>,
    files_selected: i32,
    files_visible: u32,
    term_lines: Vec<String>,
    term_visible: u32,
    netsurf_visible: u32,
}

impl View for State {
    type V = StateView;

    closed spec fn view(&self) -> StateView {
        StateView {
            width: self.width,
            height: self.height,
            wallpaper: self.wallpaper@,
            frame: self.frame@,
            clients: self.clients@,
            active: self.active,
            tick: self.tick,
            layout_version: self.layout_version,
            running: self.running,
            dock: self.dock,
            files_path: self.files_path@,
            files: entries_view(self.files@),
            files_selected: self.files_selected,
            files_visible: self.files_visible,
            term_lines: strings_view(self.term_lines@),
            term_visible: self.term_visible,
            netsurf_visible: self.netsurf_visible,
        }
    }
}

/// An unmapped client with empty geometry.
pub open spec fn empty_client() -> Client {
    Client {
        frame: Rect { x: 0, y: 0, width: 0, height: 0 },
        content: Rect { x: 0, y: 0, width: 0, height: 0 },
        mapped: 0,
    }
}

/// The session before the host starts it: a 960×540 screen, no windows
/// placed, the browser focused, every window marked visible, the Files
/// window on `/workspace` with no entries and the first row selected.
pub open spec fn initial_view() -> StateView {
    StateView {
        width: 960,
        height: 540,
        wallpaper: Seq::empty(),
        frame: Seq::empty(),
        clients: seq![empty_client(), empty_client(), empty_client()],
        active: NETSURF_INDEX as u32,
        tick: 0,
        layout_version: 0,
        running: 0,
        dock: Rect { x: 0, y: 0, width: 0, height: 0 },
        files_path: "/workspace"@,
        files: Seq::empty(),
        files_selected: 0,
        files_visible: 1,
        term_lines: Seq::empty(),
        term_visible: 1,
        netsurf_visible: 1,
    }
}

/// `v + 1`, wrapping to 0 past the largest `u32`.
pub open spec fn bump(v: u32) -> u32 {
    if v == u32::MAX { 0 } else { (v + 1) as u32 }
}

fn bump_version(v: u32) -> (r: u32)
    ensures
        r == bump(v),
{
    v.wrapping_add(1)
}

/// The clients after slot `i` is marked mapped.
pub open spec fn mapped_at(clients: Seq<Client>, i: int) -> Seq<Client> {
    clients.update(i, Client { mapped: 1, ..clients[i] })
}

/// The three clients laid out for a screen `w` wide with the dock at `dock`.
pub open spec fn laid_out(w: int, dock: Rect) -> Seq<Client> {
    seq![client_layout(0, w, dock), client_layout(1, w, dock), client_layout(2, w, dock)]
}

/// A slot laid out on a screen of an allowed width, with the dock on
/// screen, gets on-screen geometry, and the layout arithmetic fits.
pub proof fn lemma_layout_on_screen(index: int, w: int, dock: Rect)
    requires
        0 <= index < WINDOW_COUNT,
        320 <= w <= 1600,
        in_box(dock, 4096),
    ensures
        layout_fits(index, w, dock),
        in_box(client_layout(index, w, dock).frame, 16384),
        in_box(client_layout(index, w, dock).content, 16384),
        client_layout(index, w, dock).mapped == 1,
{
    assert(185 <= div_trunc(w * 58, 100) <= 928);
    assert(440 <= browser_width(w) <= 580);
    assert(240 <= side_width(w) <= 1600);
    assert(240 <= content_height(dock) <= 4096);
}

/// A frame of an allowed screen size holds at most 6 400 000 bytes.
pub proof fn lemma_frame_size(w: int, h: int)
    requires
        0 <= w <= 1600,
        0 <= h <= 1000,
    ensures
        0 <= w * h * 4 <= 6_400_000,
        w * h * 4 <= isize::MAX,
{
    assert(0 <= w * h <= 1_600_000) by (nonlinear_arith)
        requires 0 <= w <= 1600, 0 <= h <= 1000;
    assert(isize::MAX >= 0x7fff_ffff);
}

/// The dock of an allowed screen size is on screen.
pub proof fn lemma_dock_on_screen(w: int, h: int)
    requires
        320 <= w <= 1600,
        180 <= h <= 1000,
    ensures
        in_box(dock_rect(w, h), 4096),
{
}

impl State {
    #[verifier::type_invariant]
    spec fn inv(self) -> bool {
        self@.well_formed()
    }

    /// The session before the host starts it.
    pub fn new() -> (s: State)
        ensures
            s@ == initial_view(),
            s@.well_formed(),
    {
        let s = State {
            width: 960,
            height: 540,
            wallpaper: Vec::new(),
            frame: Vec::new(),
            clients: [Client::empty(), Client::empty(), Client::empty()],
            active: NETSURF_INDEX as u32,
            tick: 0,
            layout_version: 0,
            running: 0,
            dock: Rect::empty(),
            files_path: String::from_str("/workspace"),
            files: Vec::new(),
            files_selected: 0,
            files_visible: 1,
            term_lines: Vec::new(),
            term_visible: 1,
            netsurf_visible: 1,
        };
        proof {
            assert(s@.clients =~= initial_view().clients);
            assert(s@.files =~= Seq::<FileView>::empty());
            assert(s@.term_lines =~= Seq::<Seq<char>>::empty());
        }
        s
    }

    /// The frame last drawn.
    pub fn frame(&self) -> (f: &Vec<u8>)
        ensures
            f@ == self@.frame,
    {
        &self.frame
    }

    /// The wallpaper pixels.
    pub fn wallpaper(&self) -> (f: &Vec<u8>)
        ensures
            f@ == self@.wallpaper,
    {
        &self.wallpaper
    }
}

/// Places the dock and all three windows for the current screen size and
/// counts a layout change.
fn layout_clients(state: &mut State)
    ensures
        final(state)@ == (StateView {
            dock: dock_rect(old(state)@.width as int, old(state)@.height as int),
            clients: laid_out(old(state)@.width as int, dock_rect(old(state)@.width as int, old(state)@.height as int)),
            layout_version: bump(old(state)@.layout_version),
            ..old(state)@
        }),
{
    proof { use_type_invariant(&*state); }
    let w = state.width as i32;
    let h = state.height as i32;
    proof {
        lemma_dock_on_screen(w as int, h as int);
    }
    state.dock = dock_geometry(w, h);
    proof {
        lemma_layout_on_screen(0, w as int, state.dock);
        lemma_layout_on_screen(1, w as int, state.dock);
        lemma_layout_on_screen(2, w as int, state.dock);
    }
    state.clients[0] = place_client(0, w, h, state.dock);
    state.clients[1] = place_client(1, w, h, state.dock);
    state.clients[2] = place_client(2, w, h, state.dock);
    state.layout_version = bump_version(state.layout_version);
    proof {
        assert(state@.clients =~= laid_out(w as int, state.dock));
    }
}


/// `v` held to `[lo, hi]`.
pub open spec fn clamp_u32(v: u32, lo: u32, hi: u32) -> u32 {
    if v < lo { lo } else if v > hi { hi } else { v }
}

fn clamp(v: u32, lo: u32, hi: u32) -> (r: u32)
    ensures
        r == clamp_u32(v, lo, hi),
{
    if v < lo { lo } else if v > hi { hi } else { v }
}

/// Starts the session on a screen of the requested size: the size is held
/// to 320..1600 × 180..1000, the browser is focused, the session runs,
/// every window is shown, the first row of the listing is selected (the
/// default listing is loaded when there is none), the wallpaper is decoded
/// and scaled to the screen and copied to the frame, and the dock and
/// windows are placed. Drawing the first frame is left to the host, which
/// sets the texts. Returns 1.
pub fn aurora_init(state: &mut State, width: u32, height: u32, wallpaper_png: &[u8]) -> (r: u32)
    ensures
        r == 1,
        final(state)@.wallpaper.len() == final(state)@.width * final(state)@.height * 4,
        png_decodes(wallpaper_png@) ==> final(state)@.wallpaper
            == scaled_png(wallpaper_png@, clamp_u32(width, 320, 1600), clamp_u32(height, 180, 1000)),
        !png_decodes(wallpaper_png@) ==> forall|i: int|
            0 <= i < final(state)@.wallpaper.len() ==> #[trigger] final(state)@.wallpaper[i] == fallback_color()[i % 4],
        final(state)@ == ({
            let w = clamp_u32(width, 320, 1600);
            let h = clamp_u32(height, 180, 1000);
            StateView {
                width: w,
                height: h,
                active: NETSURF_INDEX as u32,
                tick: 0,
                running: 1,
                files_visible: 1,
                term_visible: 1,
                netsurf_visible: 1,
                files_selected: 0,
                files: if old(state)@.files.len() == 0 { default_listing() } else { old(state)@.files },
                wallpaper: final(state)@.wallpaper,
                frame: final(state)@.wallpaper,
                dock: dock_rect(w as int, h as int),
                clients: laid_out(w as int, dock_rect(w as int, h as int)),
                layout_version: bump(old(state)@.layout_version),
                ..old(state)@
            }
        }),
        final(state)@.well_formed(),
{
    proof { use_type_invariant(&*state); }
    state.width = clamp(width, 320, 1600);
    state.height = clamp(height, 180, 1000);
    state.active = NETSURF_INDEX as u32;
    state.tick = 0;
    state.running = 1;
    state.files_visible = 1;
    state.term_visible = 1;
    state.netsurf_visible = 1;
    state.files_selected = 0;
    if state.files.len() == 0 {
        state.files = default_files();
    }
    proof { lemma_frame_size(state.width as int, state.height as int); }
    state.wallpaper = decode_wallpaper(wallpaper_png, state.width, state.height);
    state.frame = state.wallpaper.clone();
    proof { assert(state.frame@ =~= state.wallpaper@); }
    layout_clients(state);
    proof { use_type_invariant(&*state); }
    1
}

/// Records the host's clock.
pub fn aurora_tick(state: &mut State, now_ms: u32)
    ensures
        final(state)@.well_formed(),
        final(state)@ == (StateView { tick: now_ms, ..old(state)@ }),
{
    proof { use_type_invariant(&*state); }
    state.tick = now_ms;
}

/// The frame a new drawing starts from: the wallpaper when it covers the
/// screen exactly, black otherwise.
pub open spec fn frame_base(v: StateView) -> Seq<u8> {
    let bytes = v.width * v.height * 4;
    if v.wallpaper.len() == bytes { v.wallpaper } else { Seq::new(bytes as nat, |i: int| 0u8) }
}

/// Starts a new frame: resizes the frame to the screen and fills it from
/// the wallpaper, or with black when the wallpaper does not cover the
/// screen. The host then runs the commands of `scene`.
pub fn begin_frame(state: &mut State)
    ensures
        final(state)@ == (StateView { frame: frame_base(old(state)@), ..old(state)@ }),
        final(state)@.frame.len() == final(state)@.width * final(state)@.height * 4,
        final(state)@.well_formed(),
{
    proof { use_type_invariant(&*state); }
    proof { lemma_frame_size(state.width as int, state.height as int); }
    let bytes = (state.width as usize) * (state.height as usize) * 4;
    if state.wallpaper.len() == bytes {
        state.frame = state.wallpaper.clone();
        proof { assert(state.frame@ =~= state.wallpaper@); }
    } else {
        state.frame = vec![0u8; bytes];
        proof { assert(state.frame@ =~= Seq::new(bytes as nat, |i: int| 0u8)); }
    }
}

/// Records the host's clock and starts a new frame from the wallpaper; the
/// host then runs the commands of `scene`. Returns 1.
pub fn aurora_render(state: &mut State, now_ms: u32) -> (r: u32)
    ensures
        final(state)@.well_formed(),
        r == 1,
        final(state)@ == (StateView { tick: now_ms, frame: frame_base(old(state)@), ..old(state)@ }),
        final(state)@.frame.len() == final(state)@.width * final(state)@.height * 4,
{
    proof { use_type_invariant(&*state); }
    state.tick = now_ms;
    begin_frame(state);
    proof { use_type_invariant(&*state); }
    1
}

/// Size of the frame in bytes.
pub fn aurora_frame_len(state: &State) -> (r: u32)
    ensures
        r == state@.frame.len(),
{
    proof { use_type_invariant(state); }
    state.frame.len() as u32
}

/// Size of the wallpaper in bytes.
pub fn aurora_wallpaper_len(state: &State) -> (r: u32)
    ensures
        r == state@.wallpaper.len(),
{
    proof { use_type_invariant(state); }
    state.wallpaper.len() as u32
}

/// Number of window slots.
pub fn aurora_window_count() -> (r: u32)
    ensures
        r == WINDOW_COUNT,
{
    WINDOW_COUNT as u32
}

/// The client in slot `index`, or none past the last slot.
pub open spec fn client_at(v: StateView, index: u32) -> Option<Client> {
    if index < WINDOW_COUNT { Some(v.clients[index as int]) } else { None }
}

fn client_get(state: &State, index: u32) -> (c: Option<Client>)
    ensures
        c == client_at(state@, index),
{
    proof { use_type_invariant(state); }
    if (index as usize) < WINDOW_COUNT {
        Some(state.clients[index as usize])
    } else {
        None
    }
}

/// Left edge of window `index`'s frame; 0 past the last slot.
pub fn aurora_window_x(state: &State, index: u32) -> (r: i32)
    ensures
        r == (match client_at(state@, index) { Some(c) => c.frame.x, None => 0 }),
{
    match client_get(state, index) { Some(c) => c.frame.x, None => 0 }
}

/// Top edge of window `index`'s frame; 0 past the last slot.
pub fn aurora_window_y(state: &State, index: u32) -> (r: i32)
    ensures
        r == (match client_at(state@, index) { Some(c) => c.frame.y, None => 0 }),
{
    match client_get(state, index) { Some(c) => c.frame.y, None => 0 }
}

/// Width of window `index`'s frame; 0 past the last slot.
pub fn aurora_window_width(state: &State, index: u32) -> (r: i32)
    ensures
        r == (match client_at(state@, index) { Some(c) => c.frame.width, None => 0 }),
{
    match client_get(state, index) { Some(c) => c.frame.width, None => 0 }
}

/// Height of window `index`'s frame; 0 past the last slot.
pub fn aurora_window_height(state: &State, index: u32) -> (r: i32)
    ensures
        r == (match client_at(state@, index) { Some(c) => c.frame.height, None => 0 }),
{
    match client_get(state, index) { Some(c) => c.frame.height, None => 0 }
}

/// Left edge of window `index`'s content; 0 past the last slot.
pub fn aurora_content_x(state: &State, index: u32) -> (r: i32)
    ensures
        r == (match client_at(state@, index) { Some(c) => c.content.x, None => 0 }),
{
    match client_get(state, index) { Some(c) => c.content.x, None => 0 }
}

/// Top edge of window `index`'s content; 0 past the last slot.
pub fn aurora_content_y(state: &State, index: u32) -> (r: i32)
    ensures
        r == (match client_at(state@, index) { Some(c) => c.content.y, None => 0 }),
{
    match client_get(state, index) { Some(c) => c.content.y, None => 0 }
}

/// Width of window `index`'s content; 0 past the last slot.
pub fn aurora_content_width(state: &State, index: u32) -> (r: i32)
    ensures
        r == (match client_at(state@, index) { Some(c) => c.content.width, None => 0 }),
{
    match client_get(state, index) { Some(c) => c.content.width, None => 0 }
}

/// Height of window `index`'s content; 0 past the last slot.
pub fn aurora_content_height(state: &State, index: u32) -> (r: i32)
    ensures
        r == (match client_at(state@, index) { Some(c) => c.content.height, None => 0 }),
{
    match client_get(state, index) { Some(c) => c.content.height, None => 0 }
}

/// 1 when slot `index` is focused, 0 otherwise.
pub fn aurora_window_active(state: &State, index: u32) -> (r: u32)
    ensures
        r == (if index == state@.active { 1u32 } else { 0u32 }),
{
    if index == state.active { 1 } else { 0 }
}

/// The focused slot.
pub fn aurora_active_window(state: &State) -> (r: u32)
    ensures
        r == state@.active,
{
    state.active
}

/// The layout counter.
pub fn aurora_layout_version(state: &State) -> (r: u32)
    ensures
        r == state@.layout_version,
{
    state.layout_version
}

/// The host's clock as last recorded.
pub fn aurora_tick_value(state: &State) -> (r: u32)
    ensures
        r == state@.tick,
{
    state.tick
}

/// Height of the top bar.
pub fn aurora_topbar_height() -> (r: i32)
    ensures
        r == crate::geometry::TOPBAR_HEIGHT,
{
    crate::geometry::TOPBAR_HEIGHT
}

/// Height of a title bar.
pub fn aurora_titlebar_height() -> (r: i32)
    ensures
        r == crate::geometry::TITLEBAR_HEIGHT,
{
    crate::geometry::TITLEBAR_HEIGHT
}

/// Left edge of the dock.
pub fn aurora_dock_x(state: &State) -> (r: i32)
    ensures
        r == state@.dock.x,
{
    state.dock.x
}

/// Top edge of the dock.
pub fn aurora_dock_y(state: &State) -> (r: i32)
    ensures
        r == state@.dock.y,
{
    state.dock.y
}

/// Width of the dock.
pub fn aurora_dock_width(state: &State) -> (r: i32)
    ensures
        r == state@.dock.width,
{
    state.dock.width
}

/// Height of the dock.
pub fn aurora_dock_height(state: &State) -> (r: i32)
    ensures
        r == state@.dock.height,
{
    state.dock.height
}

/// 1 once the session runs.
pub fn aurora_is_running(state: &State) -> (r: u32)
    ensures
        r == state@.running,
{
    state.running
}

/// 1 when the Files window is shown.
pub fn aurora_files_visible(state: &State) -> (r: u32)
    ensures
        r == state@.files_visible,
{
    state.files_visible
}

fn map_slot(state: &mut State, index: usize)
    requires
        index < WINDOW_COUNT,
    ensures
        final(state)@ == (StateView { clients: mapped_at(old(state)@.clients, index as int), ..old(state)@ }),
{
    proof { use_type_invariant(&*state); }
    let mut c = state.clients[index];
    c.mapped = 1;
    proof {
        assert(state@.clients[index as int] == state.clients[index as int]);
        assert(in_box(c.frame, 16384) && in_box(c.content, 16384));
    }
    state.clients[index] = c;
    proof { assert(state@.clients =~= mapped_at(old(state)@.clients, index as int)); }
}

/// Shows (any non-zero `show`) or hides (0) the Files window. Showing also
/// focuses and maps it. Either way the layout counter advances. Returns 1.
pub fn aurora_files_show(state: &mut State, show: u32) -> (r: u32)
    ensures
        final(state)@.well_formed(),
        r == 1,
        final(state)@ == (if show != 0 {
            StateView {
                files_visible: 1,
                active: FILES_INDEX as u32,
                clients: mapped_at(old(state)@.clients, FILES_INDEX as int),
                layout_version: bump(old(state)@.layout_version),
                ..old(state)@
            }
        } else {
            StateView { files_visible: 0, layout_version: bump(old(state)@.layout_version), ..old(state)@ }
        }),
{
    proof { use_type_invariant(&*state); }
    state.files_visible = if show == 0 { 0 } else { 1 };
    if state.files_visible == 1 {
        state.active = FILES_INDEX as u32;
        map_slot(state, FILES_INDEX);
        proof { use_type_invariant(&*state); }
    }
    state.layout_version = bump_version(state.layout_version);
    1
}

/// Empties the Files listing and clears the selection.
pub fn aurora_files_clear(state: &mut State)
    ensures
        final(state)@.well_formed(),
        final(state)@ == (StateView { files: Seq::empty(), files_selected: -1i32, ..old(state)@ }),
{
    proof { use_type_invariant(&*state); }
    state.files_selected = -1;
    state.files = Vec::new();
    proof { assert(state@.files =~= Seq::<FileView>::empty()); }
}

/// Capacity of the path buffer.
pub fn aurora_files_path_cap() -> (r: u32)
    ensures
        r == PATH_CAP,
{
    PATH_CAP as u32
}

/// The first `len` bytes of a buffer, or all of it when `len` is larger.
pub open spec fn buffer_prefix(buf: Seq<u8>, len: u32) -> Seq<u8> {
    buf.subrange(0, min_int(len as int, buf.len() as int))
}

/// Sets the folder the Files window shows from the first `len` bytes of
/// the path buffer (at most its capacity), decoded as UTF-8 with invalid
/// sequences replaced. Returns 1.
pub fn aurora_files_set_path(state: &mut State, path_buf: &[u8; PATH_CAP], len: u32) -> (r: u32)
    ensures
        final(state)@.well_formed(),
        r == 1,
        final(state)@ == (StateView { files_path: lossy_utf8(buffer_prefix(path_buf@, len)), ..old(state)@ }),
        valid_utf8(buffer_prefix(path_buf@, len)) ==> final(state)@.files_path == decode_utf8(buffer_prefix(path_buf@, len)),
{
    proof { use_type_invariant(&*state); }
    let n: usize = if (len as usize) < PATH_CAP { len as usize } else { PATH_CAP };
    let bytes: &[u8] = path_buf.as_slice();
    state.files_path = utf8_lossy(slice_prefix(bytes, n));
    1
}

fn slice_prefix(bytes: &[u8], n: usize) -> (r: &[u8])
    requires
        n <= bytes@.len(),
    ensures
        r@ == bytes@.subrange(0, n as int),
{
    &bytes[0..n]
}

/// Capacity of the name buffer.
pub fn aurora_files_name_cap() -> (r: u32)
    ensures
        r == NAME_CAP,
{
    NAME_CAP as u32
}


/// The entry a name of `bytes` and a requested `kind` becomes: the kind is
/// held to at most 3.
pub open spec fn new_entry(bytes: Seq<u8>, kind: u32) -> FileView {
    FileView { name: lossy_utf8(bytes), kind: if kind <= 3 { kind } else { 3 } }
}

/// Adds an entry to the Files listing, named by the first `len` bytes of
/// the name buffer (at most its capacity) decoded as UTF-8, of the given
/// kind held to at most 3. Refused (0, nothing changes) when the listing
/// already holds 64 entries or the name is empty; otherwise the entry is
/// appended, the first row is selected if none was, and 1 is returned.
pub fn aurora_files_add(state: &mut State, name_buf: &[u8; NAME_CAP], len: u32, kind: u32) -> (r: u32)
    ensures
        final(state)@.well_formed(),
        ({
            let bytes = buffer_prefix(name_buf@, len);
            if old(state)@.files.len() >= MAX_FILES || bytes.len() == 0 {
                &&& r == 0
                &&& final(state)@ == old(state)@
            } else {
                &&& r == 1
                &&& final(state)@ == (StateView {
                    files: old(state)@.files.push(new_entry(bytes, kind)),
                    files_selected: if old(state)@.files_selected < 0 { 0 } else { old(state)@.files_selected },
                    ..old(state)@
                })
            }
        }),
        r == 1 && valid_utf8(buffer_prefix(name_buf@, len))
            ==> final(state)@.files.last().name == decode_utf8(buffer_prefix(name_buf@, len)),
{
    proof { use_type_invariant(&*state); }
    if state.files.len() >= MAX_FILES {
        return 0;
    }
    let n: usize = if (len as usize) < NAME_CAP { len as usize } else { NAME_CAP };
    let name = utf8_lossy(slice_prefix(name_buf.as_slice(), n));
    if name.as_str().is_empty() {
        return 0;
    }
    let kind = if kind <= 3 { kind } else { 3 };
    let selected = state.files_selected;
    state.files_selected = -1;
    let mut files: Vec<FileEntry> = Vec::new();
    std::mem::swap(&mut files, &mut state.files);
    let ghost before = entries_view(files@);
    files.push(FileEntry { name, kind });
    proof {
        assert(entries_view(files@) =~= before.push(new_entry(buffer_prefix(name_buf@, len), kind)));
        assert(before == old(state)@.files);
        assert forall|i: int| 0 <= i < entries_view(files@).len() implies
            (#[trigger] entries_view(files@)[i]).kind <= 3 && entries_view(files@)[i].name.len() > 0 by {
            if i < before.len() {
                assert(old(state)@.files[i] == before[i]);
            }
        }
    }
    state.files = files;
    state.files_selected = if selected < 0 { 0 } else { selected };
    1
}

/// Number of entries in the Files listing.
pub fn aurora_files_count(state: &State) -> (r: u32)
    ensures
        r == state@.files.len(),
{
    proof { use_type_invariant(state); }
    state.files.len() as u32
}

/// Shows (any non-zero `show`) or hides (0) the terminal. Showing also
/// focuses and maps it. Returns 1.
pub fn aurora_term_show(state: &mut State, show: u32) -> (r: u32)
    ensures
        final(state)@.well_formed(),
        r == 1,
        final(state)@ == (if show != 0 {
            StateView {
                term_visible: 1,
                active: TERM_INDEX as u32,
                clients: mapped_at(old(state)@.clients, TERM_INDEX as int),
                ..old(state)@
            }
        } else {
            StateView { term_visible: 0, ..old(state)@ }
        }),
{
    proof { use_type_invariant(&*state); }
    state.term_visible = if show == 0 { 0 } else { 1 };
    if state.term_visible == 1 {
        state.active = TERM_INDEX as u32;
        map_slot(state, TERM_INDEX);
    }
    1
}

/// 1 when the terminal is shown.
pub fn aurora_term_visible(state: &State) -> (r: u32)
    ensures
        r == state@.term_visible,
{
    state.term_visible
}

/// Empties the terminal log.
pub fn aurora_term_clear(state: &mut State)
    ensures
        final(state)@.well_formed(),
        final(state)@ == (StateView { term_lines: Seq::empty(), ..old(state)@ }),
{
    proof { use_type_invariant(&*state); }
    state.term_lines = Vec::new();
    proof { assert(state@.term_lines =~= Seq::<Seq<char>>::empty()); }
}

/// Capacity of the buffer the host writes a terminal line into (the name
/// buffer).
pub fn aurora_term_line_cap() -> (r: u32)
    ensures
        r == NAME_CAP,
{
    NAME_CAP as u32
}

/// The terminal log after `line` is appended: when the log is full, its
/// oldest line is dropped first.
pub open spec fn log_append(lines: Seq<Seq<char>>, line: Seq<char>) -> Seq<Seq<char>> {
    (if lines.len() >= MAX_TERM_LINES { lines.drop_first() } else { lines }).push(line)
}

/// Appends to the terminal log the first `len` bytes of the name buffer
/// (at most its capacity) decoded as UTF-8, dropping the oldest line when
/// 40 are kept, and shows the terminal. Returns 1.
pub fn aurora_term_add_line(state: &mut State, line_buf: &[u8; NAME_CAP], len: u32) -> (r: u32)
    ensures
        final(state)@.well_formed(),
        r == 1,
        final(state)@ == (StateView {
            term_lines: log_append(old(state)@.term_lines, lossy_utf8(buffer_prefix(line_buf@, len))),
            term_visible: 1,
            ..old(state)@
        }),
        valid_utf8(buffer_prefix(line_buf@, len))
            ==> final(state)@.term_lines.last() == decode_utf8(buffer_prefix(line_buf@, len)),
{
    proof { use_type_invariant(&*state); }
    let mut lines: Vec<String> = Vec::new();
    std::mem::swap(&mut lines, &mut state.term_lines);
    let ghost before = strings_view(lines@);
    if lines.len() >= MAX_TERM_LINES {
        lines.remove(0);
        proof { assert(strings_view(lines@) =~= before.drop_first()); }
    }
    let ghost kept = strings_view(lines@);
    let n: usize = if (len as usize) < NAME_CAP { len as usize } else { NAME_CAP };
    let line = utf8_lossy(slice_prefix(line_buf.as_slice(), n));
    lines.push(line);
    proof { assert(strings_view(lines@) =~= log_append(before, lossy_utf8(buffer_prefix(line_buf@, len)))); }
    state.term_lines = lines;
    state.term_visible = 1;
    1
}

/// Shows (any non-zero `show`) or hides (0) the browser. Showing also
/// focuses and maps it. Returns 1.
pub fn aurora_netsurf_show(state: &mut State, show: u32) -> (r: u32)
    ensures
        final(state)@.well_formed(),
        r == 1,
        final(state)@ == (if show != 0 {
            StateView {
                netsurf_visible: 1,
                active: NETSURF_INDEX as u32,
                clients: mapped_at(old(state)@.clients, NETSURF_INDEX as int),
                ..old(state)@
            }
        } else {
            StateView { netsurf_visible: 0, ..old(state)@ }
        }),
{
    proof { use_type_invariant(&*state); }
    state.netsurf_visible = if show == 0 { 0 } else { 1 };
    if state.netsurf_visible == 1 {
        state.active = NETSURF_INDEX as u32;
        map_slot(state, NETSURF_INDEX);
    }
    1
}

/// 1 when the browser is shown.
pub fn aurora_netsurf_visible(state: &State) -> (r: u32)
    ensures
        r == state@.netsurf_visible,
{
    state.netsurf_visible
}

/// Window slot of the browser.
pub fn aurora_netsurf_index() -> (r: u32)
    ensures
        r == NETSURF_INDEX,
{
    NETSURF_INDEX as u32
}

/// Window slot of the terminal.
pub fn aurora_term_index() -> (r: u32)
    ensures
        r == TERM_INDEX,
{
    TERM_INDEX as u32
}

/// A client asks to be mapped in slot `index`; the requested size is not
/// used. Refused (0, nothing changes) past the last slot. Otherwise the
/// slot is laid out for the current screen and dock, focused (the Files
/// window is also shown), the layout counter advances, the session runs,
/// and 1 is returned.
pub fn aurora_map_request(state: &mut State, index: u32, req_w: i32, req_h: i32) -> (r: u32)
    ensures
        final(state)@.well_formed(),
        index >= WINDOW_COUNT ==> r == 0 && final(state)@ == old(state)@,
        index < WINDOW_COUNT ==> r == 1 && final(state)@ == (StateView {
            clients: old(state)@.clients.update(
                index as int,
                client_layout(index as int, old(state)@.width as int, old(state)@.dock),
            ),
            active: index,
            files_visible: if index == FILES_INDEX { 1 } else { old(state)@.files_visible },
            layout_version: bump(old(state)@.layout_version),
            running: 1,
            ..old(state)@
        }),
{
    proof { use_type_invariant(&*state); }
    if index as usize >= WINDOW_COUNT {
        return 0;
    }
    proof { lemma_layout_on_screen(index as int, state.width as int, state.dock); }
    let client = place_client(index as usize, state.width as i32, state.height as i32, state.dock);
    state.clients[index as usize] = client;
    state.active = index;
    if index as usize == FILES_INDEX {
        state.files_visible = 1;
    }
    state.layout_version = bump_version(state.layout_version);
    state.running = 1;
    1
}

/// Window slot `i` takes a click at `(x, y)`: it is mapped, its frame holds
/// the point, and it is not the hidden Files window.
pub open spec fn clickable(v: StateView, i: int, x: int, y: int) -> bool {
    &&& v.clients[i].mapped == 1
    &&& v.clients[i].frame.holds(x, y)
    &&& !(i == FILES_INDEX && v.files_visible == 0)
}

/// The topmost window slot that takes a click at `(x, y)`: later slots lie
/// above earlier ones.
pub open spec fn clicked_window(v: StateView, x: int, y: int) -> Option<int> {
    if clickable(v, 2, x, y) {
        Some(2)
    } else if clickable(v, 1, x, y) {
        Some(1)
    } else if clickable(v, 0, x, y) {
        Some(0)
    } else {
        None
    }
}

/// The session after dock launcher `button` is clicked: Term shows, maps
/// and focuses the terminal, Files the Files window, Net the browser; the
/// other launchers do nothing. Either way the layout counter advances.
pub open spec fn after_dock_click(v: StateView, button: int) -> StateView {
    let w = if button == 0 {
        StateView { term_visible: 1, active: TERM_INDEX as u32, clients: mapped_at(v.clients, TERM_INDEX as int), ..v }
    } else if button == 1 {
        StateView { files_visible: 1, active: FILES_INDEX as u32, clients: mapped_at(v.clients, FILES_INDEX as int), ..v }
    } else if button == 2 {
        StateView { netsurf_visible: 1, active: NETSURF_INDEX as u32, clients: mapped_at(v.clients, NETSURF_INDEX as int), ..v }
    } else {
        v
    };
    StateView { layout_version: bump(v.layout_version), ..w }
}

/// The selection after a click at `(x, y)` in the Files window: a click in
/// the list area on an existing row selects that row.
pub open spec fn selection_after_click(v: StateView, x: int, y: int) -> i32 {
    let c = v.clients[FILES_INDEX as int].content;
    let list_x = c.x + 132;
    let list_top = c.y + 90;
    if x >= list_x && y >= list_top && (y - list_top) / 42 < v.files.len() {
        ((y - list_top) / 42) as i32
    } else {
        v.files_selected
    }
}

/// The session after a click at `(x, y)` on window slot `i`: it is
/// focused, and in the Files window the clicked row is selected.
pub open spec fn after_window_click(v: StateView, i: int, x: int, y: int) -> StateView {
    StateView {
        active: i as u32,
        files_selected: if i == FILES_INDEX { selection_after_click(v, x, y) } else { v.files_selected },
        ..v
    }
}

/// The session and the answer after a pointer press at `(x, y)`: on the
/// dock, the launcher under the pointer acts and the answer is the focused
/// slot plus one; otherwise the topmost window under the pointer is
/// clicked and the answer is its slot plus one; on the bare desktop
/// nothing changes and the answer is 0.
pub open spec fn pointer_outcome(v: StateView, x: int, y: int) -> (StateView, u32) {
    if v.dock.holds(x, y) {
        let w = after_dock_click(v, (x - v.dock.x) / 50);
        (w, (w.active + 1) as u32)
    } else {
        match clicked_window(v, x, y) {
            Some(i) => (after_window_click(v, i, x, y), (i + 1) as u32),
            None => (v, 0u32),
        }
    }
}

/// Handles a pointer press at `(x, y)`.
pub fn aurora_pointer_down(state: &mut State, x: i32, y: i32) -> (r: u32)
    ensures
        final(state)@.well_formed(),
        (final(state)@, r) == pointer_outcome(old(state)@, x as int, y as int),
{
    proof { use_type_invariant(&*state); }
    let dock = state.dock;
    if dock.contains(x, y) {
        let local = x - dock.x;
        let button = local / crate::geometry::DOCK_STRIDE;
        if button == 0 {
            state.term_visible = 1;
            state.active = TERM_INDEX as u32;
            map_slot(state, TERM_INDEX);
        } else if button == 1 {
            state.files_visible = 1;
            state.active = FILES_INDEX as u32;
            map_slot(state, FILES_INDEX);
        } else if button == 2 {
            state.netsurf_visible = 1;
            state.active = NETSURF_INDEX as u32;
            map_slot(state, NETSURF_INDEX);
        }
        proof { use_type_invariant(&*state); }
        state.layout_version = bump_version(state.layout_version);
        return state.active + 1;
    }
    let mut k: usize = WINDOW_COUNT;
    while k > 0
        invariant
            k <= WINDOW_COUNT,
            state@ == old(state)@,
            state@.well_formed(),
            !state@.dock.holds(x as int, y as int),
            forall|j: int| k <= j < WINDOW_COUNT ==> !clickable(state@, j, x as int, y as int),
        decreases k,
    {
        let index = k - 1;
        let client = state.clients[index];
        proof { assert(state@.clients[index as int] == client); }
        if client.mapped == 1 && client.frame.contains(x, y) {
            if !(index == FILES_INDEX && state.files_visible == 0) {
                state.active = index as u32;
                if index == FILES_INDEX {
                    let content = client.content;
                    let list_x = content.x + 132;
                    let list_top = content.y + 90;
                    if x >= list_x && y >= list_top {
                        let row = (y - list_top) / 42;
                        if row >= 0 && (row as usize) < state.files.len() {
                            state.files_selected = row;
                        }
                    }
                }
                return state.active + 1;
            }
        }
        k = index;
    }
    0
}

/// The focused slot after key `key`: Tab (9) moves focus to the next slot,
/// wrapping round; the keys 1 to 3 (49 to 51) focus slots 0 to 2; other
/// keys leave focus where it is.
pub open spec fn focus_after_key(active: u32, key: u32) -> u32 {
    if key == 9 {
        ((active + 1) % (WINDOW_COUNT as int)) as u32
    } else if 49 <= key <= 51 {
        (key - 49) as u32
    } else {
        active
    }
}

/// Handles a key press and returns the focused slot.
pub fn aurora_handle_key(state: &mut State, key: u32) -> (r: u32)
    ensures
        final(state)@.well_formed(),
        r == focus_after_key(old(state)@.active, key),
        final(state)@ == (StateView { active: r, ..old(state)@ }),
{
    proof { use_type_invariant(&*state); }
    if key == 9 {
        state.active = (state.active + 1) % (WINDOW_COUNT as u32);
    } else if key >= 49 && key <= 51 {
        state.active = key - 49;
    }
    state.active
}


/// Length in bytes of an ASCII text; for such a text it is its number of
/// characters.
fn ascii_len(t: &str) -> (n: usize)
    requires
        vstd::string::is_ascii(t),
        t@.len() <= u32::MAX,
    ensures
        n == t@.len(),
{
    proof {
        vstd::string::is_ascii_spec_bytes(t);
        assert(t.spec_bytes().len() == t@.len());
    }
    t.len()
}

/// Length in bytes of the title of window `index` (the first title past the
/// last slot).
pub fn aurora_window_title_len(index: u32) -> (r: u32)
    ensures
        r == title_of(index as int).len(),
{
    let t = window_title(index as usize);
    proof {
        reveal_strlit("NetSurf");
        reveal_strlit("Aurora Files");
        reveal_strlit("Aurora Terminal");
    }
    ascii_len(t) as u32
}

/// The status line of the session.
pub open spec fn status_of(v: StateView) -> Seq<char> {
    if v.running == 1 { "running - terminal + netsurf + files"@ } else { "idle"@ }
}

/// The status line: what runs once the session is running, idle before.
pub fn status_text(state: &State) -> (t: &'static str)
    ensures
        t@ == status_of(state@),
{
    if state.running == 1 {
        "running - terminal + netsurf + files"
    } else {
        "idle"
    }
}

/// Length in bytes of the status line.
pub fn aurora_status_len(state: &State) -> (r: u32)
    ensures
        r == status_of(state@).len(),
{
    let t = status_text(state);
    proof {
        reveal_strlit("running - terminal + netsurf + files");
        reveal_strlit("idle");
    }
    ascii_len(t) as u32
}

/// Where the window manager's source lives.
pub open spec fn source_url_text() -> Seq<char> {
    "https://github.com/ecooxai/aurora-wm"@
}

/// Where the window manager's source lives.
pub fn source_url() -> (t: &'static str)
    ensures
        t@ == source_url_text(),
{
    "https://github.com/ecooxai/aurora-wm"
}

/// Length in bytes of the source address.
pub fn aurora_source_len() -> (r: u32)
    ensures
        r == source_url_text().len(),
{
    let t = source_url();
    proof { reveal_strlit("https://github.com/ecooxai/aurora-wm"); }
    ascii_len(t) as u32
}


/// Window slot `i` is drawn: it is mapped and its window is shown.
pub open spec fn window_shown(v: StateView, i: int) -> bool {
    &&& v.clients[i].mapped != 0
    &&& !(i == FILES_INDEX && v.files_visible == 0)
    &&& !(i == TERM_INDEX && v.term_visible == 0)
    &&& !(i == NETSURF_INDEX && v.netsurf_visible == 0)
}

/// The commands of the content of window slot `i`.
pub open spec fn window_body_cmds(v: StateView, i: int) -> Seq<CommandView> {
    let c = v.clients[i].content;
    if i == FILES_INDEX {
        files_app_cmds(c, v.files_path, v.files, v.files_selected)
    } else if i == TERM_INDEX {
        term_cmds(c, i == v.active, v.term_lines)
    } else {
        netsurf_cmds(c)
    }
}

/// The commands of window slot `i`: nothing when it is not drawn;
/// otherwise its drop shadow, its title bar and its content.
pub open spec fn window_cmds(v: StateView, i: int) -> Seq<CommandView> {
    if window_shown(v, i) {
        let f = v.clients[i].frame;
        seq![DrawOp::Fill {
            rect: Rect { x: (f.x + 6) as i32, y: (f.y + 8) as i32, width: f.width, height: f.height },
            color: [0u8, 0u8, 0u8, 55u8],
        }] + titlebar_cmds(i, v.clients[i], i == v.active) + window_body_cmds(v, i)
    } else {
        Seq::empty()
    }
}

/// The commands of a frame, back to front: the top bar, the windows in
/// slot order, the dock.
pub open spec fn scene_cmds(v: StateView) -> Seq<CommandView> {
    topbar_cmds(v.width, v.tick) + window_cmds(v, 0) + window_cmds(v, 1) + window_cmds(v, 2) + dock_cmds(v.dock, v.active)
}

fn draw_window(ops: &mut Vec<Command>, state: &State, index: usize)
    requires
        index < WINDOW_COUNT,
    ensures
        all_small(cmds(old(ops)@)) ==> all_small(cmds(final(ops)@)),
        cmds(final(ops)@) == cmds(old(ops)@) + window_cmds(state@, index as int),
{
    proof { use_type_invariant(state); }
    let ghost start = cmds(ops@);
    let client = state.clients[index];
    proof { assert(state@.clients[index as int] == client); }
    if client.mapped == 0 {
        return;
    }
    if index == FILES_INDEX && state.files_visible == 0 {
        return;
    }
    if index == TERM_INDEX && state.term_visible == 0 {
        return;
    }
    if index == NETSURF_INDEX && state.netsurf_visible == 0 {
        return;
    }
    let is_active = index as u32 == state.active;
    let f = client.frame;
    push_fill(ops, Rect { x: f.x + 6, y: f.y + 8, width: f.width, height: f.height }, [0, 0, 0, 55]);
    draw_titlebar(ops, index, client, is_active);
    let ghost mid = cmds(ops@);
    if index == FILES_INDEX {
        draw_files_app(ops, client.content, &state.files_path, &state.files, state.files_selected);
    } else if index == TERM_INDEX {
        draw_terminal_body(ops, client.content, is_active, &state.term_lines);
    } else {
        draw_netsurf_placeholder(ops, client.content);
    }
    assert(cmds(ops@) =~= mid + window_body_cmds(state@, index as int));
    assert(cmds(ops@) =~= start + window_cmds(state@, index as int));
}

/// The commands of the current frame, each small enough to be run.
pub fn scene(state: &State) -> (sc: Scene)
    ensures
        sc@ == scene_cmds(state@),
{
    proof { use_type_invariant(state); }
    let mut ops: Vec<Command> = Vec::new();
    proof { assert(cmds(ops@) =~= Seq::<CommandView>::empty()); }
    draw_topbar(&mut ops, state.width, state.tick);
    draw_window(&mut ops, state, 0);
    draw_window(&mut ops, state, 1);
    draw_window(&mut ops, state, 2);
    draw_dock(&mut ops, state.dock, state.active);
    assert(cmds(ops@) =~= scene_cmds(state@));
    Scene::from_cmds(ops)
}

/// Runs command `i` of `scene` on the frame; text commands are set by the
/// host with `aurora_blend_pixel`.
pub fn paint_scene_command(state: &mut State, scene: &Scene, i: usize)
    requires
        i < scene@.len(),
    ensures
        final(state)@.well_formed(),
        final(state)@ == (StateView { frame: cmd_painted(old(state)@.frame, old(state)@.width, scene@[i as int]), ..old(state)@ }),
{
    proof { use_type_invariant(&*state); }
    let c = scene.command(i);
    let mut frame: Vec<u8> = Vec::new();
    std::mem::swap(&mut frame, &mut state.frame);
    paint_command(&mut frame, state.width, c);
    proof { lemma_painted_len(old(state)@.frame, state.width, c@); }
    state.frame = frame;
}

/// Running a command keeps the size of the frame.
pub proof fn lemma_painted_len(s: Seq<u8>, width: u32, c: CommandView)
    ensures
        cmd_painted(s, width, c).len() == s.len(),
{
}

/// Draws `color` over pixel `(x, y)` of the frame; the host sets texts this way.
pub fn aurora_blend_pixel(state: &mut State, x: i32, y: i32, color: Color)
    ensures
        final(state)@.well_formed(),
        final(state)@ == (StateView { frame: plotted(old(state)@.frame, old(state)@.width, x as int, y as int, color), ..old(state)@ }),
{
    proof { use_type_invariant(&*state); }
    let mut frame: Vec<u8> = Vec::new();
    std::mem::swap(&mut frame, &mut state.frame);
    put_pixel(&mut frame, state.width, x, y, color);
    state.frame = frame;
}

} // verus!
