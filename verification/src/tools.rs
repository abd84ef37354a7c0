//! The tool table: names, descriptions and input types, and what a call is held to.
use vstd::prelude::*;

use crate::broker_client::CallOptions;
use crate::error::BridgeError;
use crate::json::Json;
use crate::text::{join2, same_text};

verus! {

/// The input types of the tools: the struct of the schema module that the arguments of
/// a call must read as.
#[derive(Clone, Copy, Debug, PartialEq, Eq, Structural)]
pub enum ArgsKind {
    BrowserContextCreate,
    BrowserContextList,
    BrowserContextDestroy,
    TabOpen,
    TabList,
    TabClose,
    TabFocus,
    TabNavigate,
    TabWait,
    PageSnapshot,
    PageScreenshot,
    PageReadText,
    PageClick,
    PageType,
    PageKeypress,
    PageScroll,
    PageHover,
    PageDrag,
    PageTouchTap,
    PageTouchSwipe,
    PageTouchPinch,
    PageTouchRotate,
    PagePointerPress,
    PagePointerMove,
    PagePointerRelease,
    PageGesturePinch,
    PageGestureRotate,
    PageGestureLongpress,
    PageDragFileDrop,
    PageKeyboardShortcut,
    PageKeyboardIme,
    PageDeadKey,
    PageScrollPrecise,
    PageTabTraversal,
    PageRightClickMenuNavigate,
    PageEval,
    PageCookies,
    PageCookiesDeepSet,
    PageStorage,
    PageStorageGet,
    PageStorageSet,
    PageStorageDelete,
    PageStorageClear,
    PageStorageCas,
    PageIndexeddbListDatabases,
    PageIndexeddbListStores,
    PageIndexeddbQuery,
    PageIndexeddbPut,
    PageIndexeddbDelete,
    PageIndexeddbDeleteDatabase,
    PageCacheApiList,
    PageCacheApiInspect,
    PageCacheApiDelete,
    PagePermissionsQuery,
    PagePermissionsGrant,
    PagePermissionsRevoke,
    PageStorageQuota,
    PageViewport,
    PageUserAgent,
    PageGeo,
    PageDarkMode,
    PageNetworkConditions,
    PageEmulate,
    PagePerformanceTimelineStart,
    PagePerformanceTimelineStop,
    PagePerformanceMetrics,
    PageCoverageJsStart,
    PageCoverageJsTake,
    PageCoverageCssStart,
    PageCoverageCssTake,
    PageHeapSnapshot,
    PageHeapSampleAlloc,
    PageCpuProfile,
    PageLayoutMetrics,
    PagePaintFlash,
    PagePdf,
    PagePrintPreview,
    NetIntercept,
    NetMock,
    NetObserve,
    NetInterceptFulfillWithBody,
    NetInterceptModifyRequest,
    NetInterceptFail,
    NetReplay,
    NetWebsocketObserve,
    NetWebsocketInjectFrame,
    NetEventsourceObserve,
    NetHarExport,
    NetProxy,
    NetMitmCertInstall,
    VisionReadText,
    VisionFindText,
    VisionCompare,
    VisionFps,
    VisionStability,
    VisionChangedSince,
    VisionVerifyAction,
    VisionPixel,
    VisionRegionClassify,
    VisionColorPalette,
    VisionTextStyle,
    VisionLayoutSegments,
    VisionIconRecognize,
    VisionQrBarcode,
    VisionScrollbarPosition,
    VisionLoadingDetect,
    VisionTooltipDetect,
    VisionModalDetect,
    VisionDiffSemantic,
    VisionAnimationFrames,
    VisionFaceBlur,
    TermSpawn,
    TermWrite,
    TermRead,
    TermSnapshot,
    TermResize,
    TermClose,
    TermSendSignal,
    TermScrollback,
    TermAltScreenActive,
    TermMouseEvent,
    SystemAudioOutput,
    SystemAudioInput,
    SystemAudioSelect,
    SystemAudioVolume,
    SystemAudioMute,
    SystemAudioCaptureToFile,
    SystemMicCapture,
    SystemCameraSnapshot,
    SystemScreenCaptureRegion,
    SystemScreenListDisplays,
    SystemBluetoothScan,
    SystemBluetoothConnect,
    SystemBluetoothDisconnect,
    SystemUsbDevices,
    SystemBattery,
    SystemNetworkInterfaces,
    SystemNetworkRoutes,
    SystemNetworkConnections,
    SystemProcessList,
    SystemProcessInfo,
    SystemProcessSignal,
    SystemFseventsWatch,
    SystemSpotlightQuery,
    SystemMetadata,
    AppList,
    AppSnapshot,
    AppClick,
    AppType,
    AppScroll,
    AppEval,
}

/// The number of tools.
pub const TOOL_COUNT: usize = 156;

/// Canonical method names, in presentation order.
pub const TOOL_NAMES: [&'static str; 156] = [
    "browser.context.create",
    "browser.context.list",
    "browser.context.destroy",
    "tab.open",
    "tab.list",
    "tab.close",
    "tab.focus",
    "tab.navigate",
    "tab.wait",
    "page.snapshot",
    "page.screenshot",
    "page.read_text",
    "page.click",
    "page.type",
    "page.keypress",
    "page.scroll",
    "page.hover",
    "page.drag",
    "page.touch.tap",
    "page.touch.swipe",
    "page.touch.pinch",
    "page.touch.rotate",
    "page.pointer.press",
    "page.pointer.move",
    "page.pointer.release",
    "page.gesture.pinch",
    "page.gesture.rotate",
    "page.gesture.longpress",
    "page.drag.file_drop",
    "page.keyboard.shortcut",
    "page.keyboard.ime",
    "page.dead_key",
    "page.scroll.precise",
    "page.tab_traversal",
    "page.right_click_menu_navigate",
    "page.eval",
    "page.cookies",
    "page.cookies.deep_set",
    "page.storage",
    "page.localstorage.get",
    "page.localstorage.set",
    "page.localstorage.delete",
    "page.localstorage.clear",
    "page.localstorage.cas",
    "page.sessionstorage.get",
    "page.sessionstorage.set",
    "page.sessionstorage.delete",
    "page.sessionstorage.clear",
    "page.sessionstorage.cas",
    "page.indexeddb.list_databases",
    "page.indexeddb.list_stores",
    "page.indexeddb.query",
    "page.indexeddb.put",
    "page.indexeddb.delete",
    "page.indexeddb.delete_database",
    "page.cache_api.list",
    "page.cache_api.inspect",
    "page.cache_api.delete",
    "page.permissions.query",
    "page.permissions.grant",
    "page.permissions.revoke",
    "page.storage.quota",
    "page.viewport",
    "page.user_agent",
    "page.geo",
    "page.dark_mode",
    "page.network_conditions",
    "page.emulate",
    "page.performance_timeline_start",
    "page.performance_timeline_stop",
    "page.performance_metrics",
    "page.coverage_js_start",
    "page.coverage_js_take",
    "page.coverage_css_start",
    "page.coverage_css_take",
    "page.heap_snapshot",
    "page.heap_sample_alloc",
    "page.cpu_profile",
    "page.layout_metrics",
    "page.paint_flash",
    "page.pdf",
    "page.print_preview",
    "net.intercept",
    "net.mock",
    "net.observe",
    "net.intercept.fulfill_with_body",
    "net.intercept.modify_request",
    "net.intercept.fail",
    "net.replay",
    "net.websocket.observe",
    "net.websocket.inject_frame",
    "net.eventsource.observe",
    "net.har.export",
    "net.proxy",
    "net.mitm_cert.install",
    "vision.read_text",
    "vision.find_text",
    "vision.compare",
    "vision.fps",
    "vision.stability",
    "vision.changed_since",
    "vision.verify_action",
    "vision.pixel",
    "vision.region.classify",
    "vision.color.palette",
    "vision.text.style",
    "vision.layout.segments",
    "vision.icon.recognize",
    "vision.qr_barcode",
    "vision.scrollbar.position",
    "vision.loading.detect",
    "vision.tooltip.detect",
    "vision.modal.detect",
    "vision.diff.semantic",
    "vision.animation.frames",
    "vision.face_blur",
    "term.spawn",
    "term.write",
    "term.read",
    "term.snapshot",
    "term.resize",
    "term.close",
    "term.send_signal",
    "term.scrollback",
    "term.alt_screen_active",
    "term.mouse_event",
    "system.audio.output",
    "system.audio.input",
    "system.audio.select",
    "system.audio.volume",
    "system.audio.mute",
    "system.audio.capture_to_file",
    "system.mic.capture",
    "system.camera.snapshot",
    "system.screen.capture_region",
    "system.screen.list_displays",
    "system.bluetooth.scan",
    "system.bluetooth.connect",
    "system.bluetooth.disconnect",
    "system.usb.devices",
    "system.battery",
    "system.network.interfaces",
    "system.network.routes",
    "system.network.connections",
    "system.process.list",
    "system.process.info",
    "system.process.signal",
    "system.fsevents.watch",
    "system.spotlight.query",
    "system.metadata",
    "app.list",
    "app.snapshot",
    "app.click",
    "app.type",
    "app.scroll",
    "app.eval",
];

/// What each tool does, in presentation order.
pub const TOOL_DESCRIPTIONS: [&'static str; 156] = [
    "Create an isolated browser context (a new Chromium with its own user-data-dir). Returns context_id.",
    "List browser contexts owned by the current session.",
    "Destroy a browser context and close all its tabs.",
    "Open a new tab and navigate to url. Optional wait_until: load|domcontentloaded|networkidle.",
    "List all tabs in the current session.",
    "Close a tab by id.",
    "Bring a tab to the front using Page.bringToFront (no focus steal).",
    "Navigate an existing tab to a url with an optional wait_until predicate.",
    "Wait for a predicate: load, networkidle, {selector}, or {url_regex}.",
    "Capture an accessibility-tree snapshot. Returned elements carry `ref` ids usable by click/type/etc.",
    "Capture a PNG/JPEG screenshot of the viewport, full page, or a single element.",
    "Read visible text content for a ref or the entire body.",
    "Click an element by ref. Use realistic=true for a humanized Bezier mouse path.",
    "Type text into an element ref with optional per-character delay.",
    "Send a single key press with optional modifiers (Alt/Control/Meta/Shift).",
    "Scroll the page or a ref'd element by (dx, dy) pixels.",
    "Hover over a ref'd element.",
    "Mouse-drag from one ref to another.",
    "synthesize a tap gesture at CSS-pixel coordinates.",
    "synthesize a one-finger swipe between CSS-pixel coordinates.",
    "synthesize a two-finger pinch centered on a CSS-pixel point.",
    "synthesize a two-finger rotate gesture around a CSS-pixel point.",
    "press a pen/pointer contact with optional pressure and tilt.",
    "move a pen/pointer contact with optional pressure and tilt.",
    "release a pen/pointer contact with optional pressure and tilt.",
    "compose a higher-level pinch gesture from touch events.",
    "compose a higher-level rotation gesture from touch events.",
    "compose a long-press gesture at CSS-pixel coordinates.",
    "dispatch a real file drop into a page target ref.",
    "dispatch a keyboard accelerator like cmd+s with modifiers.",
    "drive IME composition state and commit text.",
    "compose an accent dead key with a base character.",
    "dispatch stepped wheel scrolling with optional momentum and easing.",
    "traverse focus forward/backward using Tab or Shift+Tab.",
    "right-click a ref and activate a context-menu path.",
    "Evaluate a JS expression in the tab. Requires the session 'eval' capability; optional ref validates target freshness before evaluation.",
    "Get, set, or clear cookies in the tab's context.",
    "set one cookie with full CDP attributes including partition_key.",
    "Operate on local/session storage or IndexedDB via the legacy umbrella shape.",
    "get one localStorage key or dump the full localStorage map.",
    "set one localStorage key to a string value.",
    "delete one localStorage key.",
    "clear localStorage for the active document origin.",
    "compare-and-set one localStorage key.",
    "get one sessionStorage key or dump the full sessionStorage map.",
    "set one sessionStorage key to a string value.",
    "delete one sessionStorage key.",
    "clear sessionStorage for the active document.",
    "compare-and-set one sessionStorage key.",
    "list IndexedDB database names for the active document origin.",
    "list object stores for one IndexedDB database.",
    "query IndexedDB object store or index data.",
    "put one IndexedDB record via a same-origin bootstrap page.",
    "delete IndexedDB records in a key range.",
    "delete an IndexedDB database.",
    "list CacheStorage caches for the active document origin.",
    "inspect one cache entry or page through cache contents.",
    "delete a whole cache or one cache entry.",
    "query one browser permission via the Permissions API.",
    "grant one browser permission override. Requires session capability \"storage_state\".",
    "revoke one permission override or reset all overrides. Requires session capability \"storage_state\".",
    "return storage usage and quota for the active document origin.",
    "Override viewport size, device-scale-factor, and mobile flag.",
    "Override user-agent and optional client hints.",
    "Override the geolocation reported to the page.",
    "Override prefers-color-scheme.",
    "Emulate network conditions (offline, latency, throughput).",
    "Emulate locale, timezone, and CPU throttle.",
    "start a Tracing.start session in stream mode. Returns when Chromium accepts the categories.",
    "stop tracing, drain Tracing.tracingComplete via IO.read, return {trace_path, bytes, data_loss}.",
    "Performance.getMetrics. Returns {metrics: [{name, value}, …]}.",
    "Profiler.startPreciseCoverage with optional call_count + detailed flags.",
    "Profiler.takePreciseCoverage. Returns {result, timestamp}.",
    "CSS.startRuleUsageTracking.",
    "CSS.takeCoverageDelta. Returns {coverage, timestamp}.",
    "HeapProfiler.takeHeapSnapshot. Streams chunks to disk; returns {snapshot_path, bytes}.",
    "HeapProfiler.startSampling, sleep duration_ms, stopSampling. Returns {profile}.",
    "Profiler.start, sleep duration_ms, Profiler.stop. Returns {profile}.",
    "Page.getLayoutMetrics. Returns viewport + content_size in CSS px.",
    "Overlay.setShowPaintRects. Highlights repainted regions on the live tab.",
    "Page.printToPDF. Auto-streams to disk for large docs; small docs returned inline as base64.",
    "capture a screenshot under emulated @media print. Restores media state on exit.",
    "Set a network interception action: continue, fulfill, or fail.",
    "Serve a mocked response for matching requests until removed.",
    "Subscribe to network.request and network.response notifications, optionally filtered by a URL regex.",
    "serve a custom HTTP response for matching requests via Fetch.fulfillRequest.",
    "rewrite URL/method/headers/body for matching requests via Fetch.continueRequest with overrides.",
    "fail matching requests with the given CDP errorReason via Fetch.failRequest.",
    "replay a prior XHR via Network.replayXHR.",
    "observe WebSocket lifecycle + frames (sent/received/error/close).",
    "inject a WebSocket frame via the Runtime.evaluate fallback. The page now self-arms the WebSocket registry shim before injection.",
    "observe Server-Sent-Events messages via Network.eventSourceMessageReceived.",
    "export captured network activity as a HAR 1.2 log.",
    "stage a proxy config; applied at next Browser::launch via --proxy-server.",
    "install a CA cert into the per-session trust store. macOS Chrome uses the native KeyChain — see error for the manual `security` command.",
    "return cached OCR text regions for a tab. Optional region filter.",
    "substring or regex search across cached OCR regions; sub-10ms p99.",
    "perceptual-hash similarity between the latest captured frame and a reference image on disk.",
    "change the active/idle FPS pair for a tab's continuous capture loop.",
    "return the rolling layout-stability score (loading/settling/stable) and seq.",
    "union of changed tiles whose captured_us is greater than `since_us`.",
    "VLM verdict for an in-flight action (no-op when VLM is off).",
    "direct mmap RGBA8 read at (x, y) in CSS px from the latest frame.",
    "heuristic region typing: text / image / icon / video / control.",
    "k-means quantization of a region into top-k dominant colours.",
    "infer font size/weight/colour for the OCR region under a rect.",
    "page → rows → cards segmentation tree from edge projections.",
    "match a small region against the local icon library.",
    "Apple Vision barcode/QR detection (empty off-Apple).",
    "locate the vertical scrollbar thumb and its 0..=1 position.",
    "classify motion-over-window as idle / progress / spinner.",
    "small-overlay heuristic over recent change history.",
    "dim-overlay + bright-body heuristic for modal dialogs.",
    "VLM-driven semantic diff between two prior vision.frame seqs: no_op / progress / failure / success.",
    "return frame handles for the last `duration_ms` window.",
    "detect & Gaussian-blur faces; gated by capability `face_detect`.",
    "spawn a real PTY session running the requested shell inside the broker session sandbox.",
    "write UTF-8 text or raw base64-decoded bytes into a PTY session.",
    "read buffered PTY output; returns base64 plus UTF-8 text when decodable.",
    "return the parser-maintained terminal screen, cursor, attrs, alt-screen, and exit state.",
    "resize the PTY and the maintained screen model to the requested cols/rows.",
    "close a PTY session and return its final exit state.",
    "send a signal to the PTY foreground process group (or child pid fallback).",
    "return bounded terminal scrollback lines from the maintained primary-screen history.",
    "report whether the terminal is in alt-screen mode plus active mouse-tracking state.",
    "inject an xterm mouse event into the PTY when mouse tracking is enabled.",
    "list host audio output devices. Requires session capability \"system\".",
    "list host audio input devices. Requires capabilities \"system\" and \"mic\".",
    "resolve/select a host audio device by uid for input or output.",
    "get or set the host output volume (0-100).",
    "get or set host output mute state.",
    "capture host/system audio to a session-relative file path. Requires capabilities \"system\" and \"screen\".",
    "capture microphone audio to a session-relative file path. Requires capabilities \"system\" and \"mic\".",
    "capture a JPEG camera snapshot to a session-relative path. Returns image content inline. Requires capabilities \"system\" and \"camera\".",
    "capture a screen region in global host coordinates to a session-relative PNG path. Returns image content inline. Requires capabilities \"system\" and \"screen\".",
    "list active host displays with ids, origins, dimensions, and scale factors.",
    "scan for nearby Bluetooth devices. Requires capabilities \"system\" and \"bluetooth\".",
    "connect to a Bluetooth device by address. Requires capabilities \"system\" and \"bluetooth\".",
    "disconnect from a Bluetooth device by address. Requires capabilities \"system\" and \"bluetooth\".",
    "enumerate USB devices. Requires capabilities \"system\" and \"raw_usb\".",
    "report host battery state and power source information.",
    "list host network interfaces.",
    "list host routing table entries.",
    "list live TCP network connections from lsof.",
    "list host processes with pid/ppid/uid/name summary fields.",
    "get detailed information for one host process pid.",
    "send a Unix signal to one host process pid.",
    "start a session-owned filesystem watch and stream `event/notify {topic:\"system.fsevents\"}` notifications.",
    "query Spotlight via mdfind.",
    "fetch file metadata via mdls.",
    "list running native macOS apps (bundle_id, pid, name, has_focus). Requires session capability \"native\" + AX permission.",
    "capture a native app's accessibility tree. Returned elements carry `ref` ids usable by app.click/type/scroll.",
    "click an element in a native app via AXPress. Does not raise the target app to the foreground.",
    "type text into a native-app element via AX value-set or pid-targeted Unicode keystrokes (no app activation).",
    "scroll a native app by (dx, dy) pixels via pid-targeted CGScrollWheel events.",
    "execute AppleScript against the bundle via osascript. Bodies that activate the target app are rejected.",
];

/// The input type of each tool, in presentation order.
pub const TOOL_ARGS: [ArgsKind; 156] = [
    ArgsKind::BrowserContextCreate,
    ArgsKind::BrowserContextList,
    ArgsKind::BrowserContextDestroy,
    ArgsKind::TabOpen,
    ArgsKind::TabList,
    ArgsKind::TabClose,
    ArgsKind::TabFocus,
    ArgsKind::TabNavigate,
    ArgsKind::TabWait,
    ArgsKind::PageSnapshot,
    ArgsKind::PageScreenshot,
    ArgsKind::PageReadText,
    ArgsKind::PageClick,
    ArgsKind::PageType,
    ArgsKind::PageKeypress,
    ArgsKind::PageScroll,
    ArgsKind::PageHover,
    ArgsKind::PageDrag,
    ArgsKind::PageTouchTap,
    ArgsKind::PageTouchSwipe,
    ArgsKind::PageTouchPinch,
    ArgsKind::PageTouchRotate,
    ArgsKind::PagePointerPress,
    ArgsKind::PagePointerMove,
    ArgsKind::PagePointerRelease,
    ArgsKind::PageGesturePinch,
    ArgsKind::PageGestureRotate,
    ArgsKind::PageGestureLongpress,
    ArgsKind::PageDragFileDrop,
    ArgsKind::PageKeyboardShortcut,
    ArgsKind::PageKeyboardIme,
    ArgsKind::PageDeadKey,
    ArgsKind::PageScrollPrecise,
    ArgsKind::PageTabTraversal,
    ArgsKind::PageRightClickMenuNavigate,
    ArgsKind::PageEval,
    ArgsKind::PageCookies,
    ArgsKind::PageCookiesDeepSet,
    ArgsKind::PageStorage,
    ArgsKind::PageStorageGet,
    ArgsKind::PageStorageSet,
    ArgsKind::PageStorageDelete,
    ArgsKind::PageStorageClear,
    ArgsKind::PageStorageCas,
    ArgsKind::PageStorageGet,
    ArgsKind::PageStorageSet,
    ArgsKind::PageStorageDelete,
    ArgsKind::PageStorageClear,
    ArgsKind::PageStorageCas,
    ArgsKind::PageIndexeddbListDatabases,
    ArgsKind::PageIndexeddbListStores,
    ArgsKind::PageIndexeddbQuery,
    ArgsKind::PageIndexeddbPut,
    ArgsKind::PageIndexeddbDelete,
    ArgsKind::PageIndexeddbDeleteDatabase,
    ArgsKind::PageCacheApiList,
    ArgsKind::PageCacheApiInspect,
    ArgsKind::PageCacheApiDelete,
    ArgsKind::PagePermissionsQuery,
    ArgsKind::PagePermissionsGrant,
    ArgsKind::PagePermissionsRevoke,
    ArgsKind::PageStorageQuota,
    ArgsKind::PageViewport,
    ArgsKind::PageUserAgent,
    ArgsKind::PageGeo,
    ArgsKind::PageDarkMode,
    ArgsKind::PageNetworkConditions,
    ArgsKind::PageEmulate,
    ArgsKind::PagePerformanceTimelineStart,
    ArgsKind::PagePerformanceTimelineStop,
    ArgsKind::PagePerformanceMetrics,
    ArgsKind::PageCoverageJsStart,
    ArgsKind::PageCoverageJsTake,
    ArgsKind::PageCoverageCssStart,
    ArgsKind::PageCoverageCssTake,
    ArgsKind::PageHeapSnapshot,
    ArgsKind::PageHeapSampleAlloc,
    ArgsKind::PageCpuProfile,
    ArgsKind::PageLayoutMetrics,
    ArgsKind::PagePaintFlash,
    ArgsKind::PagePdf,
    ArgsKind::PagePrintPreview,
    ArgsKind::NetIntercept,
    ArgsKind::NetMock,
    ArgsKind::NetObserve,
    ArgsKind::NetInterceptFulfillWithBody,
    ArgsKind::NetInterceptModifyRequest,
    ArgsKind::NetInterceptFail,
    ArgsKind::NetReplay,
    ArgsKind::NetWebsocketObserve,
    ArgsKind::NetWebsocketInjectFrame,
    ArgsKind::NetEventsourceObserve,
    ArgsKind::NetHarExport,
    ArgsKind::NetProxy,
    ArgsKind::NetMitmCertInstall,
    ArgsKind::VisionReadText,
    ArgsKind::VisionFindText,
    ArgsKind::VisionCompare,
    ArgsKind::VisionFps,
    ArgsKind::VisionStability,
    ArgsKind::VisionChangedSince,
    ArgsKind::VisionVerifyAction,
    ArgsKind::VisionPixel,
    ArgsKind::VisionRegionClassify,
    ArgsKind::VisionColorPalette,
    ArgsKind::VisionTextStyle,
    ArgsKind::VisionLayoutSegments,
    ArgsKind::VisionIconRecognize,
    ArgsKind::VisionQrBarcode,
    ArgsKind::VisionScrollbarPosition,
    ArgsKind::VisionLoadingDetect,
    ArgsKind::VisionTooltipDetect,
    ArgsKind::VisionModalDetect,
    ArgsKind::VisionDiffSemantic,
    ArgsKind::VisionAnimationFrames,
    ArgsKind::VisionFaceBlur,
    ArgsKind::TermSpawn,
    ArgsKind::TermWrite,
    ArgsKind::TermRead,
    ArgsKind::TermSnapshot,
    ArgsKind::TermResize,
    ArgsKind::TermClose,
    ArgsKind::TermSendSignal,
    ArgsKind::TermScrollback,
    ArgsKind::TermAltScreenActive,
    ArgsKind::TermMouseEvent,
    ArgsKind::SystemAudioOutput,
    ArgsKind::SystemAudioInput,
    ArgsKind::SystemAudioSelect,
    ArgsKind::SystemAudioVolume,
    ArgsKind::SystemAudioMute,
    ArgsKind::SystemAudioCaptureToFile,
    ArgsKind::SystemMicCapture,
    ArgsKind::SystemCameraSnapshot,
    ArgsKind::SystemScreenCaptureRegion,
    ArgsKind::SystemScreenListDisplays,
    ArgsKind::SystemBluetoothScan,
    ArgsKind::SystemBluetoothConnect,
    ArgsKind::SystemBluetoothDisconnect,
    ArgsKind::SystemUsbDevices,
    ArgsKind::SystemBattery,
    ArgsKind::SystemNetworkInterfaces,
    ArgsKind::SystemNetworkRoutes,
    ArgsKind::SystemNetworkConnections,
    ArgsKind::SystemProcessList,
    ArgsKind::SystemProcessInfo,
    ArgsKind::SystemProcessSignal,
    ArgsKind::SystemFseventsWatch,
    ArgsKind::SystemSpotlightQuery,
    ArgsKind::SystemMetadata,
    ArgsKind::AppList,
    ArgsKind::AppSnapshot,
    ArgsKind::AppClick,
    ArgsKind::AppType,
    ArgsKind::AppScroll,
    ArgsKind::AppEval,
];

/// `i` is the first position of `name` in the table.
pub open spec fn tool_at(name: Seq<char>, i: int) -> bool {
    &&& 0 <= i < TOOL_COUNT
    &&& TOOL_NAMES@[i]@ == name
    &&& forall|k: int| 0 <= k < i ==> (#[trigger] TOOL_NAMES@[k])@ != name
}

pub open spec fn is_tool(name: Seq<char>) -> bool {
    exists|i: int| 0 <= i < TOOL_COUNT && (#[trigger] TOOL_NAMES@[i])@ == name
}

/// The position of a tool in the table.
pub fn tool_index(name: &str) -> (r: Option<usize>)
    ensures
        match r {
            Some(i) => tool_at(name@, i as int),
            None => !is_tool(name@),
        },
{
    let mut i: usize = 0;
    while i < TOOL_COUNT
        invariant
            i <= TOOL_COUNT,
            forall|k: int| 0 <= k < i ==> (#[trigger] TOOL_NAMES@[k])@ != name@,
        decreases TOOL_COUNT - i,
    {
        if same_text(TOOL_NAMES[i], name) {
            return Some(i);
        }
        i += 1;
    }
    None
}

/// What `tools/list` says of one tool.
#[derive(Debug)]
pub struct ToolDescriptor {
    pub name: &'static str,
    pub description: &'static str,
    pub input_schema: Json,
}

/// The schema of a tool's input type, or null where none could be made.
pub open spec fn schema_or_null(schema: Option<Json>) -> crate::json::JsonView {
    match schema {
        Some(j) => j@,
        None => crate::json::JsonView::Null,
    }
}

/// `list` describes every tool of the table, in its order, with these input schemas.
pub open spec fn describes_tools(list: Seq<ToolDescriptor>, schemas: Seq<Option<Json>>) -> bool {
    &&& list.len() == TOOL_COUNT
    &&& forall|i: int|
        0 <= i < TOOL_COUNT ==> {
            &&& (#[trigger] list[i]).name@ == TOOL_NAMES@[i]@
            &&& list[i].description@ == TOOL_DESCRIPTIONS@[i]@
            &&& list[i].input_schema@ == schema_or_null(schemas[i])
        }
}

/// Builds the tool list: one descriptor for each tool, in presentation order.
/// `schemas` holds the JSON schema of each tool's input type.
pub fn build_list(schemas: Vec<Option<Json>>) -> (list: Vec<ToolDescriptor>)
    requires
        schemas@.len() == TOOL_COUNT,
    ensures
        describes_tools(list@, schemas@),
{
    let mut list: Vec<ToolDescriptor> = Vec::new();
    let mut i: usize = 0;
    while i < TOOL_COUNT
        invariant
            i <= TOOL_COUNT,
            schemas@.len() == TOOL_COUNT,
            list@.len() == i,
            forall|k: int|
                0 <= k < i ==> {
                    &&& (#[trigger] list@[k]).name@ == TOOL_NAMES@[k]@
                    &&& list@[k].description@ == TOOL_DESCRIPTIONS@[k]@
                    &&& list@[k].input_schema@ == schema_or_null(schemas@[k])
                },
        decreases TOOL_COUNT - i,
    {
        let input_schema = match &schemas[i] {
            Some(j) => j.copy(),
            None => Json::Null,
        };
        list.push(
            ToolDescriptor {
                name: TOOL_NAMES[i],
                description: TOOL_DESCRIPTIONS[i],
                input_schema,
            },
        );
        i += 1;
    }
    list
}

/// Whether some descriptor of the list has that name.
pub open spec fn listed(list: Seq<ToolDescriptor>, name: Seq<char>) -> bool {
    exists|i: int| 0 <= i < list.len() && (#[trigger] list[i]).name@ == name
}

/// The first descriptor of that name.
pub fn find<'a>(list: &'a Vec<ToolDescriptor>, name: &str) -> (r: Option<&'a ToolDescriptor>)
    ensures
        match r {
            Some(d) => exists|i: int|
                {
                    &&& 0 <= i < list@.len()
                    &&& #[trigger] list@[i] == *d
                    &&& d.name@ == name@
                    &&& forall|k: int| 0 <= k < i ==> (#[trigger] list@[k]).name@ != name@
                },
            None => !listed(list@, name@),
        },
{
    let mut i: usize = 0;
    while i < list.len()
        invariant
            i <= list@.len(),
            forall|k: int| 0 <= k < i ==> (#[trigger] list@[k]).name@ != name@,
        decreases list@.len() - i,
    {
        if same_text(list[i].name, name) {
            assert(list@[i as int] == list[i as int]);
            return Some(&list[i]);
        }
        i += 1;
    }
    None
}

/// Seconds that a call of this tool may take.
pub open spec fn timeout_secs(tool: Seq<char>) -> u64 {
    if tool == "tab.wait"@ || tool == "system.audio.capture_to_file"@ || tool
        == "system.mic.capture"@ || tool == "system.bluetooth.scan"@ {
        60
    } else if tool == "tab.open"@ || tool == "tab.navigate"@ || tool == "term.spawn"@ {
        45
    } else if tool == "page.pdf"@ || tool == "page.heap_snapshot"@ || tool
        == "page.performance_timeline_stop"@ {
        120
    } else if tool == "page.cpu_profile"@ || tool == "page.heap_sample_alloc"@ {
        180
    } else {
        30
    }
}

/// The call options of a tool: slow tools get more time than the default half minute.
pub fn call_options_for(tool: &str) -> (o: CallOptions)
    ensures
        o.timeout_millis == 1000 * timeout_secs(tool@),
{
    let secs: u64 = if same_text(tool, "tab.wait") || same_text(
        tool,
        "system.audio.capture_to_file",
    ) || same_text(tool, "system.mic.capture") || same_text(tool, "system.bluetooth.scan") {
        60
    } else if same_text(tool, "tab.open") || same_text(tool, "tab.navigate") || same_text(
        tool,
        "term.spawn",
    ) {
        45
    } else if same_text(tool, "page.pdf") || same_text(tool, "page.heap_snapshot") || same_text(
        tool,
        "page.performance_timeline_stop",
    ) {
        120
    } else if same_text(tool, "page.cpu_profile") || same_text(tool, "page.heap_sample_alloc") {
        180
    } else {
        30
    };
    CallOptions { timeout_millis: 1000 * secs }
}

/// The table's own text of a tool name, for error messages.
pub fn name_static(name: &str) -> (s: &'static str)
    ensures
        s@ == (if is_tool(name@) {
            name@
        } else {
            "<unknown>"@
        }),
{
    match tool_index(name) {
        Some(i) => TOOL_NAMES[i],
        None => "<unknown>",
    }
}

/// The input type that the arguments of a tool are held to.
pub fn args_kind(name: &str) -> (r: Option<ArgsKind>)
    ensures
        match r {
            Some(kind) => exists|i: int| #[trigger] tool_at(name@, i) && kind == TOOL_ARGS@[i],
            None => !is_tool(name@),
        },
{
    match tool_index(name) {
        Some(i) => Some(TOOL_ARGS[i]),
        None => None,
    }
}

/// Decides a call of `name` whose arguments were read as the tool's input type, with
/// that outcome: an unknown tool and unreadable arguments are refused.
pub fn validate_args(name: &str, read: Result<(), String>) -> (r: Result<(), BridgeError>)
    ensures
        r is Ok <==> is_tool(name@) && read is Ok,
        !is_tool(name@) ==> (r matches Err(BridgeError::Protocol(msg)) && msg@ == "unknown tool: "@
            + name@),
        is_tool(name@) && read is Err ==> (r matches Err(
            BridgeError::InvalidParams { method, reason },
        ) && method@ == name@ && reason@ == read->Err_0@),
{
    match tool_index(name) {
        None => Err(BridgeError::Protocol(join2("unknown tool: ", name))),
        Some(_) => match read {
            Ok(_) => Ok(()),
            Err(reason) => Err(BridgeError::InvalidParams { method: name_static(name), reason }),
        },
    }
}

/// What is sent to the broker for a tool call: the method goes by the name of the tool, and
/// each tool has its own time limit. `read` says whether the arguments could be read.
pub fn dispatch(name: &str, read: Result<(), String>) -> (r: Result<
    (&'static str, CallOptions),
    BridgeError,
>)
    ensures
        match r {
            Ok((method, opts)) => is_tool(name@) && read is Ok && method@ == name@
                && opts.timeout_millis == 1000 * timeout_secs(name@),
            Err(BridgeError::Protocol(msg)) => !is_tool(name@) && msg@ == "unknown tool: "@ + name@,
            Err(BridgeError::InvalidParams { method, reason }) => is_tool(name@) && read is Err
                && method@ == name@ && reason@ == read->Err_0@,
            Err(_) => false,
        },
{
    match validate_args(name, read) {
        Ok(_) => Ok((name_static(name), call_options_for(name))),
        Err(e) => Err(e),
    }
}

/// Every name of the table has a descriptor in the tool list, and the list has no other.
pub proof fn every_tool_is_listed(
    list: Seq<ToolDescriptor>,
    schemas: Seq<Option<Json>>,
    name: Seq<char>,
)
    requires
        describes_tools(list, schemas),
    ensures
        listed(list, name) <==> is_tool(name),
{
    if is_tool(name) {
        let i = choose|i: int| 0 <= i < TOOL_COUNT && (#[trigger] TOOL_NAMES@[i])@ == name;
        assert(list[i].name@ == name);
    }
    if listed(list, name) {
        let i = choose|i: int| 0 <= i < list.len() && (#[trigger] list[i]).name@ == name;
        assert(TOOL_NAMES@[i]@ == name);
    }
}

} // verus!
