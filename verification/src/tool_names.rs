//! No two tools share a name, and each has its own arguments and its own time.
use vstd::prelude::*;

use crate::json::Json;
use crate::tools::{
    describes_tools, timeout_secs, tool_at, ArgsKind, ToolDescriptor, TOOL_ARGS, TOOL_COUNT,
    TOOL_NAMES,
};

verus! {

/// A number that tells the names of the tools apart: a weighted sum of the length and of four
/// characters.
pub open spec fn name_key(s: Seq<char>) -> int {
    35 * s.len() + 7 * (s[0] as int) + 15 * (s[5] as int) + 54 * (s[s.len() - 3] as int) + 59 * (
    s[s.len() - 8] as int)
}

/// The place of the tool whose name has that number.
pub open spec fn place_of_key(key: int) -> int {
    if key == 15053 {
        0
    } else if key == 14530 {
        1
    } else if key == 11876 {
        2
    } else if key == 15664 {
        3
    } else if key == 15181 {
        4
    } else if key == 14464 {
        5
    } else if key == 13861 {
        6
    } else if key == 14415 {
        7
    } else if key == 14629 {
        8
    } else if key == 15365 {
        9
    } else if key == 15376 {
        10
    } else if key == 14397 {
        11
    } else if key == 14366 {
        12
    } else if key == 15096 {
        13
    } else if key == 14611 {
        14
    } else if key == 14847 {
        15
    } else if key == 15143 {
        16
    } else if key == 14478 {
        17
    } else if key == 15827 {
        18
    } else if key == 14595 {
        19
    } else if key == 14865 {
        20
    } else if key == 14493 {
        21
    } else if key == 14507 {
        22
    } else if key == 15897 {
        23
    } else if key == 11116 {
        24
    } else if key == 15625 {
        25
    } else if key == 14191 {
        26
    } else if key == 15102 {
        27
    } else if key == 15300 {
        28
    } else if key == 15290 {
        29
    } else if key == 15203 {
        30
    } else if key == 14417 {
        31
    } else if key == 11558 {
        32
    } else if key == 16090 {
        33
    } else if key == 15272 {
        34
    } else if key == 14709 {
        35
    } else if key == 11073 {
        36
    } else if key == 15114 {
        37
    } else if key == 10881 {
        38
    } else if key == 15427 {
        39
    } else if key == 16075 {
        40
    } else if key == 14657 {
        41
    } else if key == 14740 {
        42
    } else if key == 15211 {
        43
    } else if key == 15602 {
        44
    } else if key == 16250 {
        45
    } else if key == 14832 {
        46
    } else if key == 14915 {
        47
    } else if key == 15386 {
        48
    } else if key == 15307 {
        49
    } else if key == 16269 {
        50
    } else if key == 14413 {
        51
    } else if key == 14996 {
        52
    } else if key == 14330 {
        53
    } else if key == 14547 {
        54
    } else if key == 14327 {
        55
    } else if key == 11207 {
        56
    } else if key == 14653 {
        57
    } else if key == 15178 {
        58
    } else if key == 14962 {
        59
    } else if key == 16048 {
        60
    } else if key == 15210 {
        61
    } else if key == 15965 {
        62
    } else if key == 14477 {
        63
    } else if key == 14779 {
        64
    } else if key == 14491 {
        65
    } else if key == 15723 {
        66
    } else if key == 10671 {
        67
    } else if key == 15277 {
        68
    } else if key == 15973 {
        69
    } else if key == 14579 {
        70
    } else if key == 14531 {
        71
    } else if key == 13847 {
        72
    } else if key == 15097 {
        73
    } else if key == 14118 {
        74
    } else if key == 15375 {
        75
    } else if key == 15318 {
        76
    } else if key == 14104 {
        77
    } else if key == 14344 {
        78
    } else if key == 14752 {
        79
    } else if key == 15400 {
        80
    } else if key == 14369 {
        81
    } else if key == 14819 {
        82
    } else if key == 15199 {
        83
    } else if key == 11495 {
        84
    } else if key == 15694 {
        85
    } else if key == 14459 {
        86
    } else if key == 14247 {
        87
    } else if key == 15311 {
        88
    } else if key == 11890 {
        89
    } else if key == 14274 {
        90
    } else if key == 12215 {
        91
    } else if key == 15435 {
        92
    } else if key == 14748 {
        93
    } else if key == 11032 {
        94
    } else if key == 14449 {
        95
    } else if key == 14685 {
        96
    } else if key == 10918 {
        97
    } else if key == 15119 {
        98
    } else if key == 15550 {
        99
    } else if key == 15075 {
        100
    } else if key == 15985 {
        101
    } else if key == 15925 {
        102
    } else if key == 14757 {
        103
    } else if key == 12154 {
        104
    } else if key == 16685 {
        105
    } else if key == 15971 {
        106
    } else if key == 14840 {
        107
    } else if key == 14670 {
        108
    } else if key == 15629 {
        109
    } else if key == 14742 {
        110
    } else if key == 15273 {
        111
    } else if key == 14967 {
        112
    } else if key == 16225 {
        113
    } else if key == 15657 {
        114
    } else if key == 14591 {
        115
    } else if key == 14851 {
        116
    } else if key == 15343 {
        117
    } else if key == 14250 {
        118
    } else if key == 15393 {
        119
    } else if key == 15008 {
        120
    } else if key == 15367 {
        121
    } else if key == 14937 {
        122
    } else if key == 15026 {
        123
    } else if key == 15197 {
        124
    } else if key == 15246 {
        125
    } else if key == 15702 {
        126
    } else if key == 15313 {
        127
    } else if key == 15108 {
        128
    } else if key == 15972 {
        129
    } else if key == 15253 {
        130
    } else if key == 14695 {
        131
    } else if key == 12102 {
        132
    } else if key == 15611 {
        133
    } else if key == 15049 {
        134
    } else if key == 14523 {
        135
    } else if key == 15070 {
        136
    } else if key == 11448 {
        137
    } else if key == 15624 {
        138
    } else if key == 11130 {
        139
    } else if key == 11098 {
        140
    } else if key == 15505 {
        141
    } else if key == 15752 {
        142
    } else if key == 15834 {
        143
    } else if key == 14734 {
        144
    } else if key == 15004 {
        145
    } else if key == 15900 {
        146
    } else if key == 16283 {
        147
    } else if key == 14800 {
        148
    } else if key == 14634 {
        149
    } else if key == 13927 {
        150
    } else if key == 15150 {
        151
    } else if key == 14892 {
        152
    } else if key == 15031 {
        153
    } else if key == 15116 {
        154
    } else if key == 14824 {
        155
    } else {
        -1
    }
}

proof fn lemma_places(i: int)
    requires
        0 <= i < TOOL_COUNT,
    ensures
        place_of_key(name_key(TOOL_NAMES@[i]@)) == i,
{
    reveal_strlit("browser.context.create");
    reveal_strlit("browser.context.list");
    reveal_strlit("browser.context.destroy");
    reveal_strlit("tab.open");
    reveal_strlit("tab.list");
    reveal_strlit("tab.close");
    reveal_strlit("tab.focus");
    reveal_strlit("tab.navigate");
    reveal_strlit("tab.wait");
    reveal_strlit("page.snapshot");
    reveal_strlit("page.screenshot");
    reveal_strlit("page.read_text");
    reveal_strlit("page.click");
    reveal_strlit("page.type");
    reveal_strlit("page.keypress");
    reveal_strlit("page.scroll");
    reveal_strlit("page.hover");
    reveal_strlit("page.drag");
    reveal_strlit("page.touch.tap");
    reveal_strlit("page.touch.swipe");
    reveal_strlit("page.touch.pinch");
    reveal_strlit("page.touch.rotate");
    reveal_strlit("page.pointer.press");
    reveal_strlit("page.pointer.move");
    reveal_strlit("page.pointer.release");
    reveal_strlit("page.gesture.pinch");
    reveal_strlit("page.gesture.rotate");
    reveal_strlit("page.gesture.longpress");
    reveal_strlit("page.drag.file_drop");
    reveal_strlit("page.keyboard.shortcut");
    reveal_strlit("page.keyboard.ime");
    reveal_strlit("page.dead_key");
    reveal_strlit("page.scroll.precise");
    reveal_strlit("page.tab_traversal");
    reveal_strlit("page.right_click_menu_navigate");
    reveal_strlit("page.eval");
    reveal_strlit("page.cookies");
    reveal_strlit("page.cookies.deep_set");
    reveal_strlit("page.storage");
    reveal_strlit("page.localstorage.get");
    reveal_strlit("page.localstorage.set");
    reveal_strlit("page.localstorage.delete");
    reveal_strlit("page.localstorage.clear");
    reveal_strlit("page.localstorage.cas");
    reveal_strlit("page.sessionstorage.get");
    reveal_strlit("page.sessionstorage.set");
    reveal_strlit("page.sessionstorage.delete");
    reveal_strlit("page.sessionstorage.clear");
    reveal_strlit("page.sessionstorage.cas");
    reveal_strlit("page.indexeddb.list_databases");
    reveal_strlit("page.indexeddb.list_stores");
    reveal_strlit("page.indexeddb.query");
    reveal_strlit("page.indexeddb.put");
    reveal_strlit("page.indexeddb.delete");
    reveal_strlit("page.indexeddb.delete_database");
    reveal_strlit("page.cache_api.list");
    reveal_strlit("page.cache_api.inspect");
    reveal_strlit("page.cache_api.delete");
    reveal_strlit("page.permissions.query");
    reveal_strlit("page.permissions.grant");
    reveal_strlit("page.permissions.revoke");
    reveal_strlit("page.storage.quota");
    reveal_strlit("page.viewport");
    reveal_strlit("page.user_agent");
    reveal_strlit("page.geo");
    reveal_strlit("page.dark_mode");
    reveal_strlit("page.network_conditions");
    reveal_strlit("page.emulate");
    reveal_strlit("page.performance_timeline_start");
    reveal_strlit("page.performance_timeline_stop");
    reveal_strlit("page.performance_metrics");
    reveal_strlit("page.coverage_js_start");
    reveal_strlit("page.coverage_js_take");
    reveal_strlit("page.coverage_css_start");
    reveal_strlit("page.coverage_css_take");
    reveal_strlit("page.heap_snapshot");
    reveal_strlit("page.heap_sample_alloc");
    reveal_strlit("page.cpu_profile");
    reveal_strlit("page.layout_metrics");
    reveal_strlit("page.paint_flash");
    reveal_strlit("page.pdf");
    reveal_strlit("page.print_preview");
    reveal_strlit("net.intercept");
    reveal_strlit("net.mock");
    reveal_strlit("net.observe");
    reveal_strlit("net.intercept.fulfill_with_body");
    reveal_strlit("net.intercept.modify_request");
    reveal_strlit("net.intercept.fail");
    reveal_strlit("net.replay");
    reveal_strlit("net.websocket.observe");
    reveal_strlit("net.websocket.inject_frame");
    reveal_strlit("net.eventsource.observe");
    reveal_strlit("net.har.export");
    reveal_strlit("net.proxy");
    reveal_strlit("net.mitm_cert.install");
    reveal_strlit("vision.read_text");
    reveal_strlit("vision.find_text");
    reveal_strlit("vision.compare");
    reveal_strlit("vision.fps");
    reveal_strlit("vision.stability");
    reveal_strlit("vision.changed_since");
    reveal_strlit("vision.verify_action");
    reveal_strlit("vision.pixel");
    reveal_strlit("vision.region.classify");
    reveal_strlit("vision.color.palette");
    reveal_strlit("vision.text.style");
    reveal_strlit("vision.layout.segments");
    reveal_strlit("vision.icon.recognize");
    reveal_strlit("vision.qr_barcode");
    reveal_strlit("vision.scrollbar.position");
    reveal_strlit("vision.loading.detect");
    reveal_strlit("vision.tooltip.detect");
    reveal_strlit("vision.modal.detect");
    reveal_strlit("vision.diff.semantic");
    reveal_strlit("vision.animation.frames");
    reveal_strlit("vision.face_blur");
    reveal_strlit("term.spawn");
    reveal_strlit("term.write");
    reveal_strlit("term.read");
    reveal_strlit("term.snapshot");
    reveal_strlit("term.resize");
    reveal_strlit("term.close");
    reveal_strlit("term.send_signal");
    reveal_strlit("term.scrollback");
    reveal_strlit("term.alt_screen_active");
    reveal_strlit("term.mouse_event");
    reveal_strlit("system.audio.output");
    reveal_strlit("system.audio.input");
    reveal_strlit("system.audio.select");
    reveal_strlit("system.audio.volume");
    reveal_strlit("system.audio.mute");
    reveal_strlit("system.audio.capture_to_file");
    reveal_strlit("system.mic.capture");
    reveal_strlit("system.camera.snapshot");
    reveal_strlit("system.screen.capture_region");
    reveal_strlit("system.screen.list_displays");
    reveal_strlit("system.bluetooth.scan");
    reveal_strlit("system.bluetooth.connect");
    reveal_strlit("system.bluetooth.disconnect");
    reveal_strlit("system.usb.devices");
    reveal_strlit("system.battery");
    reveal_strlit("system.network.interfaces");
    reveal_strlit("system.network.routes");
    reveal_strlit("system.network.connections");
    reveal_strlit("system.process.list");
    reveal_strlit("system.process.info");
    reveal_strlit("system.process.signal");
    reveal_strlit("system.fsevents.watch");
    reveal_strlit("system.spotlight.query");
    reveal_strlit("system.metadata");
    reveal_strlit("app.list");
    reveal_strlit("app.snapshot");
    reveal_strlit("app.click");
    reveal_strlit("app.type");
    reveal_strlit("app.scroll");
    reveal_strlit("app.eval");
}

/// No name is in the table twice, so that a name stands for one tool.
pub proof fn tool_names_are_distinct(i: int, j: int)
    requires
        0 <= i < j < TOOL_COUNT,
    ensures
        TOOL_NAMES@[i]@ != TOOL_NAMES@[j]@,
{
    lemma_places(i);
    lemma_places(j);
}

/// Every tool has one descriptor: no two of the list share a name.
pub proof fn one_descriptor_per_tool(
    list: Seq<ToolDescriptor>,
    schemas: Seq<Option<Json>>,
    i: int,
    j: int,
)
    requires
        describes_tools(list, schemas),
        0 <= i < j < list.len(),
    ensures
        list[i].name@ != list[j].name@,
{
    tool_names_are_distinct(i, j);
    assert(list[i].name@ == TOOL_NAMES@[i]@ && list[j].name@ == TOOL_NAMES@[j]@);
}

/// The tools that take arguments of a kind.
pub open spec fn takes(name: Seq<char>, kind: ArgsKind) -> bool {
    match kind {
        ArgsKind::BrowserContextCreate => name == "browser.context.create"@,
        ArgsKind::BrowserContextList => name == "browser.context.list"@,
        ArgsKind::BrowserContextDestroy => name == "browser.context.destroy"@,
        ArgsKind::TabOpen => name == "tab.open"@,
        ArgsKind::TabList => name == "tab.list"@,
        ArgsKind::TabClose => name == "tab.close"@,
        ArgsKind::TabFocus => name == "tab.focus"@,
        ArgsKind::TabNavigate => name == "tab.navigate"@,
        ArgsKind::TabWait => name == "tab.wait"@,
        ArgsKind::PageSnapshot => name == "page.snapshot"@,
        ArgsKind::PageScreenshot => name == "page.screenshot"@,
        ArgsKind::PageReadText => name == "page.read_text"@,
        ArgsKind::PageClick => name == "page.click"@,
        ArgsKind::PageType => name == "page.type"@,
        ArgsKind::PageKeypress => name == "page.keypress"@,
        ArgsKind::PageScroll => name == "page.scroll"@,
        ArgsKind::PageHover => name == "page.hover"@,
        ArgsKind::PageDrag => name == "page.drag"@,
        ArgsKind::PageTouchTap => name == "page.touch.tap"@,
        ArgsKind::PageTouchSwipe => name == "page.touch.swipe"@,
        ArgsKind::PageTouchPinch => name == "page.touch.pinch"@,
        ArgsKind::PageTouchRotate => name == "page.touch.rotate"@,
        ArgsKind::PagePointerPress => name == "page.pointer.press"@,
        ArgsKind::PagePointerMove => name == "page.pointer.move"@,
        ArgsKind::PagePointerRelease => name == "page.pointer.release"@,
        ArgsKind::PageGesturePinch => name == "page.gesture.pinch"@,
        ArgsKind::PageGestureRotate => name == "page.gesture.rotate"@,
        ArgsKind::PageGestureLongpress => name == "page.gesture.longpress"@,
        ArgsKind::PageDragFileDrop => name == "page.drag.file_drop"@,
        ArgsKind::PageKeyboardShortcut => name == "page.keyboard.shortcut"@,
        ArgsKind::PageKeyboardIme => name == "page.keyboard.ime"@,
        ArgsKind::PageDeadKey => name == "page.dead_key"@,
        ArgsKind::PageScrollPrecise => name == "page.scroll.precise"@,
        ArgsKind::PageTabTraversal => name == "page.tab_traversal"@,
        ArgsKind::PageRightClickMenuNavigate => name == "page.right_click_menu_navigate"@,
        ArgsKind::PageEval => name == "page.eval"@,
        ArgsKind::PageCookies => name == "page.cookies"@,
        ArgsKind::PageCookiesDeepSet => name == "page.cookies.deep_set"@,
        ArgsKind::PageStorage => name == "page.storage"@,
        ArgsKind::PageStorageGet => {
            ||| name == "page.localstorage.get"@
            ||| name == "page.sessionstorage.get"@
        },
        ArgsKind::PageStorageSet => {
            ||| name == "page.localstorage.set"@
            ||| name == "page.sessionstorage.set"@
        },
        ArgsKind::PageStorageDelete => {
            ||| name == "page.localstorage.delete"@
            ||| name == "page.sessionstorage.delete"@
        },
        ArgsKind::PageStorageClear => {
            ||| name == "page.localstorage.clear"@
            ||| name == "page.sessionstorage.clear"@
        },
        ArgsKind::PageStorageCas => {
            ||| name == "page.localstorage.cas"@
            ||| name == "page.sessionstorage.cas"@
        },
        ArgsKind::PageIndexeddbListDatabases => name == "page.indexeddb.list_databases"@,
        ArgsKind::PageIndexeddbListStores => name == "page.indexeddb.list_stores"@,
        ArgsKind::PageIndexeddbQuery => name == "page.indexeddb.query"@,
        ArgsKind::PageIndexeddbPut => name == "page.indexeddb.put"@,
        ArgsKind::PageIndexeddbDelete => name == "page.indexeddb.delete"@,
        ArgsKind::PageIndexeddbDeleteDatabase => name == "page.indexeddb.delete_database"@,
        ArgsKind::PageCacheApiList => name == "page.cache_api.list"@,
        ArgsKind::PageCacheApiInspect => name == "page.cache_api.inspect"@,
        ArgsKind::PageCacheApiDelete => name == "page.cache_api.delete"@,
        ArgsKind::PagePermissionsQuery => name == "page.permissions.query"@,
        ArgsKind::PagePermissionsGrant => name == "page.permissions.grant"@,
        ArgsKind::PagePermissionsRevoke => name == "page.permissions.revoke"@,
        ArgsKind::PageStorageQuota => name == "page.storage.quota"@,
        ArgsKind::PageViewport => name == "page.viewport"@,
        ArgsKind::PageUserAgent => name == "page.user_agent"@,
        ArgsKind::PageGeo => name == "page.geo"@,
        ArgsKind::PageDarkMode => name == "page.dark_mode"@,
        ArgsKind::PageNetworkConditions => name == "page.network_conditions"@,
        ArgsKind::PageEmulate => name == "page.emulate"@,
        ArgsKind::PagePerformanceTimelineStart => name == "page.performance_timeline_start"@,
        ArgsKind::PagePerformanceTimelineStop => name == "page.performance_timeline_stop"@,
        ArgsKind::PagePerformanceMetrics => name == "page.performance_metrics"@,
        ArgsKind::PageCoverageJsStart => name == "page.coverage_js_start"@,
        ArgsKind::PageCoverageJsTake => name == "page.coverage_js_take"@,
        ArgsKind::PageCoverageCssStart => name == "page.coverage_css_start"@,
        ArgsKind::PageCoverageCssTake => name == "page.coverage_css_take"@,
        ArgsKind::PageHeapSnapshot => name == "page.heap_snapshot"@,
        ArgsKind::PageHeapSampleAlloc => name == "page.heap_sample_alloc"@,
        ArgsKind::PageCpuProfile => name == "page.cpu_profile"@,
        ArgsKind::PageLayoutMetrics => name == "page.layout_metrics"@,
        ArgsKind::PagePaintFlash => name == "page.paint_flash"@,
        ArgsKind::PagePdf => name == "page.pdf"@,
        ArgsKind::PagePrintPreview => name == "page.print_preview"@,
        ArgsKind::NetIntercept => name == "net.intercept"@,
        ArgsKind::NetMock => name == "net.mock"@,
        ArgsKind::NetObserve => name == "net.observe"@,
        ArgsKind::NetInterceptFulfillWithBody => name == "net.intercept.fulfill_with_body"@,
        ArgsKind::NetInterceptModifyRequest => name == "net.intercept.modify_request"@,
        ArgsKind::NetInterceptFail => name == "net.intercept.fail"@,
        ArgsKind::NetReplay => name == "net.replay"@,
        ArgsKind::NetWebsocketObserve => name == "net.websocket.observe"@,
        ArgsKind::NetWebsocketInjectFrame => name == "net.websocket.inject_frame"@,
        ArgsKind::NetEventsourceObserve => name == "net.eventsource.observe"@,
        ArgsKind::NetHarExport => name == "net.har.export"@,
        ArgsKind::NetProxy => name == "net.proxy"@,
        ArgsKind::NetMitmCertInstall => name == "net.mitm_cert.install"@,
        ArgsKind::VisionReadText => name == "vision.read_text"@,
        ArgsKind::VisionFindText => name == "vision.find_text"@,
        ArgsKind::VisionCompare => name == "vision.compare"@,
        ArgsKind::VisionFps => name == "vision.fps"@,
        ArgsKind::VisionStability => name == "vision.stability"@,
        ArgsKind::VisionChangedSince => name == "vision.changed_since"@,
        ArgsKind::VisionVerifyAction => name == "vision.verify_action"@,
        ArgsKind::VisionPixel => name == "vision.pixel"@,
        ArgsKind::VisionRegionClassify => name == "vision.region.classify"@,
        ArgsKind::VisionColorPalette => name == "vision.color.palette"@,
        ArgsKind::VisionTextStyle => name == "vision.text.style"@,
        ArgsKind::VisionLayoutSegments => name == "vision.layout.segments"@,
        ArgsKind::VisionIconRecognize => name == "vision.icon.recognize"@,
        ArgsKind::VisionQrBarcode => name == "vision.qr_barcode"@,
        ArgsKind::VisionScrollbarPosition => name == "vision.scrollbar.position"@,
        ArgsKind::VisionLoadingDetect => name == "vision.loading.detect"@,
        ArgsKind::VisionTooltipDetect => name == "vision.tooltip.detect"@,
        ArgsKind::VisionModalDetect => name == "vision.modal.detect"@,
        ArgsKind::VisionDiffSemantic => name == "vision.diff.semantic"@,
        ArgsKind::VisionAnimationFrames => name == "vision.animation.frames"@,
        ArgsKind::VisionFaceBlur => name == "vision.face_blur"@,
        ArgsKind::TermSpawn => name == "term.spawn"@,
        ArgsKind::TermWrite => name == "term.write"@,
        ArgsKind::TermRead => name == "term.read"@,
        ArgsKind::TermSnapshot => name == "term.snapshot"@,
        ArgsKind::TermResize => name == "term.resize"@,
        ArgsKind::TermClose => name == "term.close"@,
        ArgsKind::TermSendSignal => name == "term.send_signal"@,
        ArgsKind::TermScrollback => name == "term.scrollback"@,
        ArgsKind::TermAltScreenActive => name == "term.alt_screen_active"@,
        ArgsKind::TermMouseEvent => name == "term.mouse_event"@,
        ArgsKind::SystemAudioOutput => name == "system.audio.output"@,
        ArgsKind::SystemAudioInput => name == "system.audio.input"@,
        ArgsKind::SystemAudioSelect => name == "system.audio.select"@,
        ArgsKind::SystemAudioVolume => name == "system.audio.volume"@,
        ArgsKind::SystemAudioMute => name == "system.audio.mute"@,
        ArgsKind::SystemAudioCaptureToFile => name == "system.audio.capture_to_file"@,
        ArgsKind::SystemMicCapture => name == "system.mic.capture"@,
        ArgsKind::SystemCameraSnapshot => name == "system.camera.snapshot"@,
        ArgsKind::SystemScreenCaptureRegion => name == "system.screen.capture_region"@,
        ArgsKind::SystemScreenListDisplays => name == "system.screen.list_displays"@,
        ArgsKind::SystemBluetoothScan => name == "system.bluetooth.scan"@,
        ArgsKind::SystemBluetoothConnect => name == "system.bluetooth.connect"@,
        ArgsKind::SystemBluetoothDisconnect => name == "system.bluetooth.disconnect"@,
        ArgsKind::SystemUsbDevices => name == "system.usb.devices"@,
        ArgsKind::SystemBattery => name == "system.battery"@,
        ArgsKind::SystemNetworkInterfaces => name == "system.network.interfaces"@,
        ArgsKind::SystemNetworkRoutes => name == "system.network.routes"@,
        ArgsKind::SystemNetworkConnections => name == "system.network.connections"@,
        ArgsKind::SystemProcessList => name == "system.process.list"@,
        ArgsKind::SystemProcessInfo => name == "system.process.info"@,
        ArgsKind::SystemProcessSignal => name == "system.process.signal"@,
        ArgsKind::SystemFseventsWatch => name == "system.fsevents.watch"@,
        ArgsKind::SystemSpotlightQuery => name == "system.spotlight.query"@,
        ArgsKind::SystemMetadata => name == "system.metadata"@,
        ArgsKind::AppList => name == "app.list"@,
        ArgsKind::AppSnapshot => name == "app.snapshot"@,
        ArgsKind::AppClick => name == "app.click"@,
        ArgsKind::AppType => name == "app.type"@,
        ArgsKind::AppScroll => name == "app.scroll"@,
        ArgsKind::AppEval => name == "app.eval"@,
    }
}

/// Every tool is held to the arguments that go by its own name; the two kinds of page storage
/// share theirs.
pub proof fn tools_take_their_own_arguments(name: Seq<char>, i: int)
    requires
        tool_at(name, i),
    ensures
        takes(name, TOOL_ARGS@[i]),
{
}

/// Slow tools get more time than the half minute of all others.
pub proof fn slow_tools_get_more_time(tool: Seq<char>)
    ensures
        timeout_secs(tool) == 60 <==> {
            ||| tool == "tab.wait"@
            ||| tool == "system.audio.capture_to_file"@
            ||| tool == "system.mic.capture"@
            ||| tool == "system.bluetooth.scan"@
        },
        timeout_secs(tool) == 45 <==> {
            ||| tool == "tab.open"@
            ||| tool == "tab.navigate"@
            ||| tool == "term.spawn"@
        },
        timeout_secs(tool) == 120 <==> {
            ||| tool == "page.pdf"@
            ||| tool == "page.heap_snapshot"@
            ||| tool == "page.performance_timeline_stop"@
        },
        timeout_secs(tool) == 180 <==> {
            ||| tool == "page.cpu_profile"@
            ||| tool == "page.heap_sample_alloc"@
        },
        timeout_secs(tool) >= 30,
        timeout_secs(tool) != 30 ==> timeout_secs(tool) == 45 || timeout_secs(tool) == 60
            || timeout_secs(tool) == 120 || timeout_secs(tool) == 180,
{
    reveal_strlit("tab.wait");
    reveal_strlit("system.audio.capture_to_file");
    reveal_strlit("system.mic.capture");
    reveal_strlit("system.bluetooth.scan");
    reveal_strlit("tab.open");
    reveal_strlit("tab.navigate");
    reveal_strlit("term.spawn");
    reveal_strlit("page.pdf");
    reveal_strlit("page.heap_snapshot");
    reveal_strlit("page.performance_timeline_stop");
    reveal_strlit("page.cpu_profile");
    reveal_strlit("page.heap_sample_alloc");
    assert("tab.wait"@.len() == 8 && "system.audio.capture_to_file"@.len() == 28
        && "system.mic.capture"@.len() == 18 && "system.bluetooth.scan"@.len() == 21
        && "tab.open"@.len() == 8 && "tab.navigate"@.len() == 12 && "term.spawn"@.len() == 10
        && "page.pdf"@.len() == 8 && "page.heap_snapshot"@.len() == 18
        && "page.performance_timeline_stop"@.len() == 30 && "page.cpu_profile"@.len() == 16
        && "page.heap_sample_alloc"@.len() == 22);
    assert("tab.wait"@[4] == 'w' && "tab.open"@[4] == 'o' && "page.pdf"@[4] == '.');
    assert("system.mic.capture"@[0] == 's' && "page.heap_snapshot"@[0] == 'p');
}

} // verus!
