//! The arguments of every tool.
use vstd::prelude::*;

use crate::json::Json;

verus! {

/// The bit pattern of an IEEE 754 double.
pub type DoubleBits = u64;

#[derive(Debug)]
pub struct BrowserContextCreate {
    /// Optional human-readable label (shown in `ofa-status`).
    pub label: Option<String>,
    /// If true (default), tabs persist across session exits via the
    /// per-session `--user-data-dir`.
    pub persist: Option<bool>,
    /// Accepted for forward compatibility. In v1 the default
    /// context is created at session launch, so passing `stealth:false` here
    /// does not reconfigure already-launched pages.
    pub stealth: Option<bool>,
    /// Enable structured trace recording for the bound session.
    pub trace: Option<bool>,
    /// Vision pipeline mode. `off` (default), `on_demand`
    /// (lazy-build the pipeline on first `vision.*` call; no continuous
    /// capture), or `continuous` (start CDP screencast on every tab and
    /// stream `event/notify {topic: "vision.frame"}` events to the MCP
    /// client).
    pub vision: Option<String>,
    /// Peak frames per second when an action is in flight.
    /// 1..=60. Default 30 when `vision = continuous`. Ignored otherwise.
    pub fps: Option<u32>,
    /// Idle frames per second (no action in flight).
    /// Default 5. Ignored when `vision != continuous`.
    pub idle_fps: Option<u32>,
}

#[derive(Debug)]
pub struct BrowserContextList {}

#[derive(Debug)]
pub struct BrowserContextDestroy {
    pub context_id: String,
}

#[derive(Debug)]
pub enum WaitUntil {
    Load,
    Domcontentloaded,
    Networkidle,
}

#[derive(Debug)]
pub struct TabOpen {
    pub url: String,
    pub wait_until: Option<WaitUntil>,
    pub timeout_ms: Option<u64>,
}

#[derive(Debug)]
pub struct TabList {}

#[derive(Debug)]
pub struct TabClose {
    pub tab_id: String,
}

#[derive(Debug)]
pub struct TabFocus {
    pub tab_id: String,
}

#[derive(Debug)]
pub struct TabNavigate {
    pub tab_id: String,
    pub url: String,
    pub wait_until: Option<WaitUntil>,
    pub timeout_ms: Option<u64>,
}

/// `predicate` is one of:
///   "load" | "networkidle" | {"selector": "..."} | {"url_regex": "..."}
/// Modeled here as an untagged enum with a permissive `Json`
/// fallback so any future shape variants pass through unchanged.
#[derive(Debug)]
pub enum TabWaitPredicate {
    Named(String), // "load" | "networkidle"
    Object(Json),
}

#[derive(Debug)]
pub struct TabWait {
    pub tab_id: String,
    pub predicate: TabWaitPredicate,
    pub timeout_ms: Option<u64>,
}

#[derive(Debug)]
pub struct PageSnapshot {
    pub tab_id: String,
    /// When present, `page.snapshot` returns only mutations
    /// since the given seq (a previous response's `snapshot_seq`). Falls
    /// back to a full snapshot when behind the anchor, on log overflow,
    /// or after a top-frame navigation.
    pub since_seq: Option<u64>,
}

#[derive(Debug)]
pub enum ImageFormat {
    Png,
    Jpeg,
}

#[derive(Debug)]
pub struct PageScreenshot {
    pub tab_id: String,
    pub format: Option<ImageFormat>,
    pub quality: Option<u8>,
    pub capture_beyond_viewport: Option<bool>,
    /// Optional element ref (clipped to bbox).
    pub element_ref: Option<String>,
}

#[derive(Debug)]
pub struct PageReadText {
    pub tab_id: String,
    pub element_ref: Option<String>,
}

#[derive(Debug)]
pub enum MouseButton {
    Left,
    Right,
    Middle,
}

#[derive(Debug)]
pub struct PageClick {
    pub tab_id: String,
    pub element_ref: String,
    pub button: Option<MouseButton>,
    pub click_count: Option<u8>,
    pub realistic: Option<bool>,
}

#[derive(Debug)]
pub struct PageType {
    pub tab_id: String,
    pub element_ref: String,
    pub text: String,
    pub delay_ms: Option<u32>,
    pub clear_first: Option<bool>,
}

#[derive(Debug)]
pub enum PageDirection {
    Forward,
    Backward,
}

#[derive(Debug)]
pub enum PageScrollEasing {
    Linear,
    EaseOut,
    EaseInOut,
}

#[derive(Debug)]
pub struct PageTouchTap {
    pub tab_id: String,
    pub x: DoubleBits,
    pub y: DoubleBits,
    pub duration_ms: Option<u64>,
    pub tap_count: Option<u32>,
}

#[derive(Debug)]
pub struct PageTouchSwipe {
    pub tab_id: String,
    pub start_x: DoubleBits,
    pub start_y: DoubleBits,
    pub end_x: DoubleBits,
    pub end_y: DoubleBits,
    pub steps: Option<u32>,
    pub duration_ms: Option<u64>,
}

#[derive(Debug)]
pub struct PageTouchPinch {
    pub tab_id: String,
    pub center_x: DoubleBits,
    pub center_y: DoubleBits,
    pub start_radius: DoubleBits,
    pub end_radius: DoubleBits,
    pub steps: Option<u32>,
    pub duration_ms: Option<u64>,
}

#[derive(Debug)]
pub struct PageTouchRotate {
    pub tab_id: String,
    pub center_x: DoubleBits,
    pub center_y: DoubleBits,
    pub radius: DoubleBits,
    pub angle_deg: DoubleBits,
    pub steps: Option<u32>,
    pub duration_ms: Option<u64>,
}

#[derive(Debug)]
pub struct PagePointerPress {
    pub tab_id: String,
    pub x: DoubleBits,
    pub y: DoubleBits,
    pub button: Option<MouseButton>,
    pub click_count: Option<u32>,
    pub pressure: Option<DoubleBits>,
    pub tangential_pressure: Option<DoubleBits>,
    pub tilt_x: Option<DoubleBits>,
    pub tilt_y: Option<DoubleBits>,
    pub twist: Option<i64>,
}

#[derive(Debug)]
pub struct PagePointerMove {
    pub tab_id: String,
    pub x: DoubleBits,
    pub y: DoubleBits,
    pub buttons: Option<i64>,
    pub pressure: Option<DoubleBits>,
    pub tangential_pressure: Option<DoubleBits>,
    pub tilt_x: Option<DoubleBits>,
    pub tilt_y: Option<DoubleBits>,
    pub twist: Option<i64>,
}

#[derive(Debug)]
pub struct PagePointerRelease {
    pub tab_id: String,
    pub x: DoubleBits,
    pub y: DoubleBits,
    pub button: Option<MouseButton>,
    pub click_count: Option<u32>,
    pub pressure: Option<DoubleBits>,
    pub tangential_pressure: Option<DoubleBits>,
    pub tilt_x: Option<DoubleBits>,
    pub tilt_y: Option<DoubleBits>,
    pub twist: Option<i64>,
}

#[derive(Debug)]
pub struct PageGesturePinch {
    pub tab_id: String,
    pub center_x: DoubleBits,
    pub center_y: DoubleBits,
    pub start_radius: DoubleBits,
    pub scale_factor: DoubleBits,
    pub steps: Option<u32>,
    pub duration_ms: Option<u64>,
}

#[derive(Debug)]
pub struct PageGestureRotate {
    pub tab_id: String,
    pub center_x: DoubleBits,
    pub center_y: DoubleBits,
    pub radius: DoubleBits,
    pub angle_deg: DoubleBits,
    pub steps: Option<u32>,
    pub duration_ms: Option<u64>,
}

#[derive(Debug)]
pub struct PageGestureLongpress {
    pub tab_id: String,
    pub x: DoubleBits,
    pub y: DoubleBits,
    pub duration_ms: Option<u64>,
}

#[derive(Debug)]
pub struct PageDragFileDrop {
    pub tab_id: String,
    pub target_ref: String,
    pub file_paths: Vec<String>,
}

#[derive(Debug)]
pub struct PageKeyboardShortcut {
    pub tab_id: String,
    pub accel: String,
}

#[derive(Debug)]
pub struct PageKeyboardIme {
    pub tab_id: String,
    pub composition_string: String,
    pub commit: Option<String>,
}

#[derive(Debug)]
pub struct PageDeadKey {
    pub tab_id: String,
    pub accent: String,
    pub base: String,
}

#[derive(Debug)]
pub struct PageScrollPrecise {
    pub tab_id: String,
    pub element_ref: Option<String>,
    pub dx: DoubleBits,
    pub dy: DoubleBits,
    pub momentum: Option<bool>,
    pub easing: Option<PageScrollEasing>,
}

#[derive(Debug)]
pub struct PageTabTraversal {
    pub tab_id: String,
    pub direction: PageDirection,
    pub count: Option<u32>,
}

#[derive(Debug)]
pub struct PageRightClickMenuNavigate {
    pub tab_id: String,
    pub element_ref: String,
    pub item_path: Vec<String>,
}

#[derive(Debug)]
pub struct PageKeypress {
    pub tab_id: String,
    /// Single key name (e.g. "Enter", "Tab", "ArrowDown").
    pub key: String,
    /// Modifiers from {"Alt","Control","Meta","Shift"}.
    pub modifiers: Option<Vec<String>>,
}

#[derive(Debug)]
pub struct PageScroll {
    pub tab_id: String,
    pub element_ref: Option<String>,
    pub dx: DoubleBits,
    pub dy: DoubleBits,
}

#[derive(Debug)]
pub struct PageHover {
    pub tab_id: String,
    pub element_ref: String,
}

#[derive(Debug)]
pub struct PageDrag {
    pub tab_id: String,
    pub from_ref: String,
    pub to_ref: String,
}

#[derive(Debug)]
pub struct PageEval {
    pub tab_id: String,
    pub expression: String,
    pub element_ref: Option<String>,
    pub return_by_value: Option<bool>,
}

#[derive(Debug)]
pub enum CookieAction {
    Get,
    SetCookie,
    Clear,
}

#[derive(Debug)]
pub struct PageCookies {
    pub tab_id: String,
    pub action: CookieAction,
    /// Required for `set`; otherwise ignored.
    pub cookies: Option<Json>,
    /// Optional exact-domain filter for `clear`.
    pub domain: Option<String>,
    /// Optional exact-name filter for `clear`.
    pub name: Option<String>,
}

#[derive(Debug)]
pub enum StorageKind {
    Local,
    Session,
    Indexeddb,
}

#[derive(Debug)]
pub struct PageStorage {
    pub tab_id: String,
    pub kind: StorageKind,
    pub action: String,
    pub args: Option<Json>,
}

#[derive(Debug)]
pub struct PageStorageGet {
    pub tab_id: String,
    pub key: Option<String>,
}

#[derive(Debug)]
pub struct PageStorageSet {
    pub tab_id: String,
    pub key: String,
    pub value: String,
}

#[derive(Debug)]
pub struct PageStorageDelete {
    pub tab_id: String,
    pub key: String,
}

#[derive(Debug)]
pub struct PageStorageClear {
    pub tab_id: String,
}

#[derive(Debug)]
pub struct PageStorageCas {
    pub tab_id: String,
    pub key: String,
    pub expected: Option<String>,
    pub value: String,
}

#[derive(Debug)]
pub struct CookiePartitionKey {
    pub top_level_site: String,
    pub has_cross_site_ancestor: bool,
}

#[derive(Debug)]
pub struct PageCookieDeepSetCookie {
    pub name: String,
    pub value: String,
    pub url: Option<String>,
    pub domain: Option<String>,
    pub path: Option<String>,
    pub secure: Option<bool>,
    pub http_only: Option<bool>,
    pub same_site: Option<String>,
    pub expires: Option<DoubleBits>,
    pub priority: Option<String>,
    pub source_scheme: Option<String>,
    pub source_port: Option<i64>,
    pub partition_key: Option<CookiePartitionKey>,
}

#[derive(Debug)]
pub struct PageCookiesDeepSet {
    pub tab_id: String,
    pub cookie: PageCookieDeepSetCookie,
}

#[derive(Debug)]
pub struct PageStorageQuota {
    pub tab_id: String,
}

#[derive(Debug)]
pub struct PagePermissionsQuery {
    pub tab_id: String,
    pub permission: Json,
    pub origin: Option<String>,
    pub embedded_origin: Option<String>,
}

#[derive(Debug)]
pub struct PagePermissionsGrant {
    pub tab_id: String,
    pub permission: Json,
    pub origin: Option<String>,
    pub embedded_origin: Option<String>,
}

#[derive(Debug)]
pub struct PagePermissionsRevoke {
    pub tab_id: String,
    pub permission: Option<Json>,
    pub origin: Option<String>,
    pub embedded_origin: Option<String>,
}

#[derive(Debug)]
pub struct PageIndexeddbListDatabases {
    pub tab_id: String,
}

#[derive(Debug)]
pub struct PageIndexeddbListStores {
    pub tab_id: String,
    pub database_name: String,
}

#[derive(Debug)]
pub struct PageIndexeddbQuery {
    pub tab_id: String,
    pub database_name: String,
    pub object_store_name: String,
    pub index_name: Option<String>,
    pub skip_count: Option<u32>,
    pub page_size: Option<u32>,
    pub key_range: Option<Json>,
}

#[derive(Debug)]
pub struct PageIndexeddbPut {
    pub tab_id: String,
    pub database_name: String,
    pub object_store_name: String,
    pub key: Json,
    pub value: Json,
    pub database_version: Option<u64>,
}

#[derive(Debug)]
pub struct PageIndexeddbDelete {
    pub tab_id: String,
    pub database_name: String,
    pub object_store_name: String,
    pub key_range: Json,
}

#[derive(Debug)]
pub struct PageIndexeddbDeleteDatabase {
    pub tab_id: String,
    pub database_name: String,
}

#[derive(Debug)]
pub struct PageCacheApiList {
    pub tab_id: String,
    pub filter: Option<String>,
}

#[derive(Debug)]
pub struct PageCacheApiInspect {
    pub tab_id: String,
    pub cache_id: String,
    pub request_url: Option<String>,
    pub request_headers: Option<Json>,
    pub skip_count: Option<u32>,
    pub page_size: Option<u32>,
    pub path_filter: Option<String>,
}

#[derive(Debug)]
pub struct PageCacheApiDelete {
    pub tab_id: String,
    pub cache_id: String,
    pub request_url: Option<String>,
}

#[derive(Debug)]
pub struct PageViewport {
    pub tab_id: String,
    pub width: u32,
    pub height: u32,
    pub device_scale_factor: Option<DoubleBits>,
    pub mobile: Option<bool>,
}

#[derive(Debug)]
pub struct PageUserAgent {
    pub tab_id: String,
    pub user_agent: Option<String>,
    pub accept_language: Option<String>,
    pub platform: Option<String>,
}

#[derive(Debug)]
pub struct PageGeo {
    pub tab_id: String,
    pub latitude: DoubleBits,
    pub longitude: DoubleBits,
    pub accuracy: Option<DoubleBits>,
}

#[derive(Debug)]
pub struct PageDarkMode {
    pub tab_id: String,
    pub enabled: bool,
}

#[derive(Debug)]
pub struct PageNetworkConditions {
    pub tab_id: String,
    /// Force offline.
    pub offline: Option<bool>,
    /// Round-trip latency in milliseconds.
    pub latency_ms: Option<u32>,
    /// Download bandwidth in bytes/sec.
    pub download_bps: Option<u64>,
    /// Upload bandwidth in bytes/sec.
    pub upload_bps: Option<u64>,
}

#[derive(Debug)]
pub struct PageEmulate {
    pub tab_id: String,
    /// BCP-47 locale tag, e.g. "en-US" or "ja-JP".
    pub locale: Option<String>,
    /// IANA timezone name, e.g. "America/New_York".
    pub timezone: Option<String>,
    /// CPU throttling rate (1.0 = no throttling, 4.0 = 4× slower).
    pub cpu_throttle: Option<DoubleBits>,
}

#[derive(Debug)]
pub struct PagePerformanceTimelineStart {
    pub tab_id: String,
    /// Comma-separated CDP categories. Empty/omitted uses the DevTools
    /// "Performance" preset.
    pub categories: Option<String>,
}

#[derive(Debug)]
pub struct PagePerformanceTimelineStop {
    pub tab_id: String,
}

#[derive(Debug)]
pub struct PagePerformanceMetrics {
    pub tab_id: String,
}

#[derive(Debug)]
pub struct PageCoverageJsStart {
    pub tab_id: String,
    /// Collect accurate call counts (default true).
    pub call_count: Option<bool>,
    /// Collect block-based coverage (default false).
    pub detailed: Option<bool>,
}

#[derive(Debug)]
pub struct PageCoverageJsTake {
    pub tab_id: String,
}

#[derive(Debug)]
pub struct PageCoverageCssStart {
    pub tab_id: String,
}

#[derive(Debug)]
pub struct PageCoverageCssTake {
    pub tab_id: String,
}

#[derive(Debug)]
pub struct PageHeapSnapshot {
    pub tab_id: String,
}

#[derive(Debug)]
pub struct PageHeapSampleAlloc {
    pub tab_id: String,
    /// Sample window in milliseconds.
    pub duration_ms: u64,
    /// Average sample interval in bytes (default 32_768).
    pub sampling_interval_bytes: Option<u64>,
}

#[derive(Debug)]
pub struct PageCpuProfile {
    pub tab_id: String,
    /// Profile window in milliseconds.
    pub duration_ms: u64,
}

#[derive(Debug)]
pub struct PageLayoutMetrics {
    pub tab_id: String,
}

#[derive(Debug)]
pub struct PagePaintFlash {
    pub tab_id: String,
    pub enable: bool,
}

#[derive(Debug)]
pub struct PagePdf {
    pub tab_id: String,
    pub landscape: Option<bool>,
    pub display_header_footer: Option<bool>,
    pub print_background: Option<bool>,
    pub scale: Option<DoubleBits>,
    pub paper_width: Option<DoubleBits>,
    pub paper_height: Option<DoubleBits>,
    pub margin_top: Option<DoubleBits>,
    pub margin_bottom: Option<DoubleBits>,
    pub margin_left: Option<DoubleBits>,
    pub margin_right: Option<DoubleBits>,
    pub page_ranges: Option<String>,
    pub header_template: Option<String>,
    pub footer_template: Option<String>,
    pub prefer_css_page_size: Option<bool>,
    pub generate_tagged_pdf: Option<bool>,
    pub generate_document_outline: Option<bool>,
    /// Force stream-mode delivery (always saves to disk).
    pub force_stream: Option<bool>,
}

#[derive(Debug)]
pub struct PagePrintPreview {
    pub tab_id: String,
    /// Image format: "png" (default) or "jpeg".
    pub format: Option<String>,
    /// Capture beyond the viewport (full-page-ish). Default false.
    pub capture_beyond_viewport: Option<bool>,
}

#[derive(Debug)]
pub enum InterceptAction {
    Continue,
    Fulfill,
    Fail,
}

#[derive(Debug)]
pub struct NetIntercept {
    pub tab_id: String,
    pub pattern: String,
    pub action: InterceptAction,
    pub overrides: Option<Json>,
}

#[derive(Debug)]
pub struct NetMockResponse {
    pub status: u16,
    pub headers: Option<Json>,
    pub body_base64: Option<String>,
}

#[derive(Debug)]
pub struct NetMock {
    pub tab_id: String,
    pub url_pattern: String,
    pub response: NetMockResponse,
}

#[derive(Debug)]
pub struct NetObserve {
    pub tab_id: String,
    /// Optional URL regex filter, applied broker-side to observed event URLs.
    pub filter: Option<String>,
}

#[derive(Debug)]
pub struct NetInterceptFulfillWithBody {
    pub tab_id: String,
    pub pattern: String,
    pub response: NetMockResponse,
}

#[derive(Debug)]
pub struct NetRequestOverrides {
    pub url: Option<String>,
    pub method: Option<String>,
    /// `[[name, value], ...]`
    pub headers: Option<Json>,
    pub post_data_base64: Option<String>,
}

#[derive(Debug)]
pub struct NetInterceptModifyRequest {
    pub tab_id: String,
    pub pattern: String,
    pub overrides: NetRequestOverrides,
}

#[derive(Debug)]
pub struct NetInterceptFail {
    pub tab_id: String,
    pub pattern: String,
    /// CDP `Network.ErrorReason` string (e.g. `NameNotResolved`,
    /// `ConnectionRefused`, `Failed`).
    pub error_reason: String,
}

#[derive(Debug)]
pub struct NetReplay {
    pub tab_id: String,
    /// CDP `Network.requestId` from a prior `requestWillBeSent`.
    pub request_id: String,
}

#[derive(Debug)]
pub struct NetWebsocketObserve {
    pub tab_id: String,
}

#[derive(Debug)]
pub struct NetWebsocketInjectFrame {
    pub tab_id: String,
    /// Substring match against the WebSocket URL — selects which open
    /// connection in the page to inject through.
    pub url_substring: String,
    /// Frame payload bytes, base64-encoded.
    pub payload_base64: String,
}

#[derive(Debug)]
pub struct NetEventsourceObserve {
    pub tab_id: String,
}

#[derive(Debug)]
pub struct NetHarExport {
    pub tab_id: String,
    /// Wall-clock epoch milliseconds; `0` returns every retained entry.
    pub since_ts: Option<DoubleBits>,
}

#[derive(Debug)]
pub struct NetProxyAuth {
    pub user: String,
    pub pass: String,
}

#[derive(Debug)]
pub struct NetProxy {
    /// `"http"`, `"https"`, `"socks5"`, etc.
    pub scheme: String,
    pub host: String,
    pub port: u16,
    pub auth: Option<NetProxyAuth>,
    /// Semicolon-joined hosts to bypass.
    pub bypass: Option<String>,
}

#[derive(Debug)]
pub struct NetMitmCertInstall {
    /// PEM-encoded CA certificate to trust for MITM scenarios.
    pub ca_pem: String,
}

#[derive(Debug)]
pub struct Bbox {
    pub x: u32,
    pub y: u32,
    pub w: u32,
    pub h: u32,
}

#[derive(Debug)]
pub struct VisionReadText {
    pub tab_id: String,
    /// Optional pixel rect to filter the returned regions.
    pub region: Option<Bbox>,
}

#[derive(Debug)]
pub struct VisionFindText {
    pub tab_id: String,
    /// Substring (default) or regex (when `is_regex = true`). Match is
    /// case-insensitive.
    pub query: String,
    pub is_regex: Option<bool>,
    pub region: Option<Bbox>,
}

#[derive(Debug)]
pub struct VisionCompare {
    pub tab_id: String,
    /// On-disk path to a reference image (PNG/JPEG). Compared against
    /// the most recent decoded frame via 32×32 average-hash distance.
    pub ref_image_path: String,
}

#[derive(Debug)]
pub struct VisionFps {
    pub tab_id: String,
    /// Peak frames per second when an action is in flight. 1..=60.
    pub fps: u32,
    /// Optional idle FPS. Defaults to `min(5, fps)`.
    pub idle_fps: Option<u32>,
}

#[derive(Debug)]
pub struct VisionStability {
    pub tab_id: String,
}

#[derive(Debug)]
pub struct VisionChangedSince {
    pub tab_id: String,
    /// Microseconds since epoch — only changes whose `captured_us` is
    /// strictly greater are returned.
    pub since_us: u64,
}

#[derive(Debug)]
pub struct VisionVerifyAction {
    pub tab_id: String,
    /// Action context: `{action, element_ref?, element_text?, note?}`.
    pub action: Json,
}

#[derive(Debug)]
pub struct VisionPixel {
    pub tab_id: String,
    pub x: u32,
    pub y: u32,
}

#[derive(Debug)]
pub struct VisionRegionClassify {
    pub tab_id: String,
    pub region: Bbox,
}

#[derive(Debug)]
pub struct VisionColorPalette {
    pub tab_id: String,
    pub region: Option<Bbox>,
    /// `1..=16` dominant colours.
    pub k: u32,
}

#[derive(Debug)]
pub struct VisionTextStyle {
    pub tab_id: String,
    pub region: Bbox,
}

#[derive(Debug)]
pub struct VisionLayoutSegments {
    pub tab_id: String,
}

#[derive(Debug)]
pub struct VisionIconRecognize {
    pub tab_id: String,
    pub region: Bbox,
}

#[derive(Debug)]
pub struct VisionQrBarcode {
    pub tab_id: String,
    pub region: Option<Bbox>,
}

#[derive(Debug)]
pub struct VisionScrollbarPosition {
    pub tab_id: String,
    pub region: Option<Bbox>,
}

#[derive(Debug)]
pub struct VisionLoadingDetect {
    pub tab_id: String,
}

#[derive(Debug)]
pub struct VisionTooltipDetect {
    pub tab_id: String,
}

#[derive(Debug)]
pub struct VisionModalDetect {
    pub tab_id: String,
}

#[derive(Debug)]
pub struct VisionFrameRef {
    /// `vision.frame` sequence number previously observed on this tab.
    pub seq: u64,
}

#[derive(Debug)]
pub struct VisionDiffSemantic {
    pub tab_id: String,
    pub prev: VisionFrameRef,
    pub next: VisionFrameRef,
    /// Action context as for `vision.verify_action`.
    pub action_context: Json,
}

#[derive(Debug)]
pub struct VisionAnimationFrames {
    pub tab_id: String,
    /// Window length in milliseconds. 1..=5000.
    pub duration_ms: u32,
}

#[derive(Debug)]
pub struct VisionFaceBlur {
    pub tab_id: String,
    pub region: Option<Bbox>,
    /// Output PNG path on disk (parent directory will be created if
    /// missing).
    pub output: String,
}

#[derive(Debug)]
pub struct SystemAudioOutput {}

#[derive(Debug)]
pub struct SystemAudioInput {}

#[derive(Debug)]
pub enum SystemAudioDirection {
    Input,
    Output,
}

#[derive(Debug)]
pub struct SystemAudioSelect {
    pub direction: SystemAudioDirection,
    pub uid: String,
}

#[derive(Debug)]
pub struct SystemAudioVolume {
    pub level: Option<u8>,
}

#[derive(Debug)]
pub struct SystemAudioMute {
    pub value: Option<bool>,
}

#[derive(Debug)]
pub struct SystemAudioCaptureToFile {
    pub path: String,
    pub duration_ms: u64,
}

#[derive(Debug)]
pub struct SystemMicCapture {
    pub path: String,
    pub duration_ms: u64,
}

#[derive(Debug)]
pub struct SystemCameraSnapshot {
    pub path: String,
    pub device_id: Option<String>,
}

#[derive(Debug)]
pub struct SystemScreenCaptureRegion {
    pub path: String,
    pub x: i64,
    pub y: i64,
    pub width: u64,
    pub height: u64,
    pub display_id: Option<u32>,
}

#[derive(Debug)]
pub struct SystemScreenListDisplays {}

#[derive(Debug)]
pub struct SystemBluetoothScan {
    pub timeout_ms: Option<u64>,
}

#[derive(Debug)]
pub struct SystemBluetoothConnect {
    pub address: String,
}

#[derive(Debug)]
pub struct SystemBluetoothDisconnect {
    pub address: String,
}

#[derive(Debug)]
pub struct SystemUsbDevices {}

#[derive(Debug)]
pub struct SystemBattery {}

#[derive(Debug)]
pub struct SystemNetworkInterfaces {}

#[derive(Debug)]
pub struct SystemNetworkRoutes {}

#[derive(Debug)]
pub struct SystemNetworkConnections {}

#[derive(Debug)]
pub struct SystemProcessList {}

#[derive(Debug)]
pub struct SystemProcessInfo {
    pub pid: i32,
}

#[derive(Debug)]
pub struct SystemProcessSignal {
    pub pid: i32,
    pub signal: i32,
}

#[derive(Debug)]
pub struct SystemFseventsWatch {
    pub paths: Vec<String>,
    pub events: Option<Vec<String>>,
}

#[derive(Debug)]
pub struct SystemSpotlightQuery {
    pub q: String,
}

#[derive(Debug)]
pub struct SystemMetadata {
    pub path: String,
}

#[derive(Debug)]
pub struct TermSpawn {
    pub shell: String,
    pub cwd: Option<String>,
    pub env: Option<Vec<(String, String)>>,
    pub cols: Option<u16>,
    pub rows: Option<u16>,
}

#[derive(Debug)]
pub struct TermWrite {
    pub session_id: String,
    pub text: Option<String>,
    pub data_base64: Option<String>,
}

#[derive(Debug)]
pub struct TermRead {
    pub session_id: String,
    pub max_bytes: Option<u64>,
}

#[derive(Debug)]
pub struct TermSnapshot {
    pub session_id: String,
}

#[derive(Debug)]
pub struct TermResize {
    pub session_id: String,
    pub cols: u16,
    pub rows: u16,
}

#[derive(Debug)]
pub struct TermClose {
    pub session_id: String,
}

#[derive(Debug)]
pub struct TermSendSignal {
    pub session_id: String,
    pub signal: String,
}

#[derive(Debug)]
pub struct TermScrollback {
    pub session_id: String,
    pub n_lines: u64,
}

#[derive(Debug)]
pub struct TermAltScreenActive {
    pub session_id: String,
}

#[derive(Debug)]
pub enum TermMouseEventKind {
    Press,
    Release,
    Move,
    ScrollUp,
    ScrollDown,
}

#[derive(Debug)]
pub enum TermMouseButton {
    Left,
    Middle,
    Right,
    NoButton,
}

#[derive(Debug)]
pub struct TermMouseEvent {
    pub session_id: String,
    pub row: u16,
    pub col: u16,
    pub kind: TermMouseEventKind,
    pub button: Option<TermMouseButton>,
    pub shift: Option<bool>,
    pub alt: Option<bool>,
    pub ctrl: Option<bool>,
}

/// `app.list` — no params; returns the running native applications.
#[derive(Debug)]
pub struct AppList {}

/// `app.snapshot` — walk an app's AX tree and return a snapshot. Refs in the
/// returned `elements[]` are scoped to `(app_id, snapshot_seq)`.
#[derive(Debug)]
pub struct AppSnapshot {
    /// Bundle id, e.g. `com.apple.calculator`.
    pub app_id: String,
}

/// `app.click` — `AXUIElementPerformAction(elem, kAXPressAction)`. Does not
/// activate the target app.
#[derive(Debug)]
pub struct AppClick {
    pub app_id: String,
    pub element_ref: String,
}

/// `app.type` — set kAXValueAttribute when settable; otherwise focus + post
/// Unicode keyboard events to the pid (no app activation).
#[derive(Debug)]
pub struct AppType {
    pub app_id: String,
    pub element_ref: String,
    pub text: String,
    /// Replace existing text instead of appending. Default false.
    pub clear_first: Option<bool>,
}

/// `app.scroll` — `CGEventCreateScrollWheelEvent2` posted to the pid.
#[derive(Debug)]
pub struct AppScroll {
    pub app_id: String,
    pub element_ref: Option<String>,
    pub dx: DoubleBits,
    pub dy: DoubleBits,
}

/// `app.eval` — execute AppleScript via `osascript` against the bundle.
/// Bodies that contain `activate` are rejected.
#[derive(Debug)]
pub struct AppEval {
    pub app_id: String,
    pub applescript: String,
}

} // verus!
