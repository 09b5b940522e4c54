[package]
name = "webrtc_chat"
version = "0.1.0"
edition = "2021"
publish = false

[dependencies]
base64 = "0.21"
sha2 = "0.10"
rand = "0.9"
qrcode = { version = "0.14", default-features = false }
image = { version = "0.25", default-features = false, features = ["png"] }
serde = { version = "1", features = ["derive"] }
serde_json = "1"
futures = "0.3"
js-sys = "0.3"
wasm-bindgen = "0.2"
wasm-bindgen-futures = "0.4"
gloo-storage = "0.3"
gloo-utils = "0.2"
reqwest = { version = "0.12", default-features = false, features = ["json"] }
yew = { version = "0.21", features = ["csr"] }
web-sys = { version = "0.3", features = ["Blob", "CanvasRenderingContext2d", "Document", "Element", "Event", "EventTarget", "File", "FileReader", "HtmlCanvasElement", "HtmlDocument", "HtmlElement", "HtmlInputElement", "HtmlTextAreaElement", "InputEvent", "KeyboardEvent", "Location", "MessageEvent", "Node", "RtcConfiguration", "RtcDataChannel", "RtcDataChannelEvent", "RtcDataChannelInit", "RtcDataChannelState", "RtcIceCandidate", "RtcIceCandidateInit", "RtcIceConnectionState", "RtcIceGatheringState", "RtcPeerConnection", "RtcPeerConnectionIceEvent", "RtcSdpType", "RtcSessionDescription", "RtcSessionDescriptionInit", "Url", "Window", "console"] }
