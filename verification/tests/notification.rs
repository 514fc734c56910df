use pwsw::config::SinkConfig;
use pwsw::notification::{get_app_icon, get_sink_icon, switch_message};

fn make_sink(name: &str, desc: &str, default: bool) -> SinkConfig {
    SinkConfig {
        name: name.to_string(),
        desc: desc.to_string(),
        icon: None,
        default,
    }
}

fn make_sink_with_icon(name: &str, desc: &str, default: bool, icon: &str) -> SinkConfig {
    SinkConfig {
        name: name.to_string(),
        desc: desc.to_string(),
        icon: Some(icon.to_string()),
        default,
    }
}

#[test]
fn test_get_sink_icon_custom_override() {
    let sink = make_sink_with_icon("test.sink", "Test Speakers", false, "custom-icon");
    assert_eq!(get_sink_icon(&sink), "custom-icon");
}

#[test]
fn test_get_sink_icon_hdmi_detection() {
    let sink = make_sink("test.hdmi", "HDMI Output", false);
    assert_eq!(get_sink_icon(&sink), "video-display");

    let sink2 = make_sink("test.sink", "Test TV", false);
    assert_eq!(get_sink_icon(&sink2), "video-display");

    let sink3 = make_sink("alsa.hdmi.stereo", "Test", false);
    assert_eq!(get_sink_icon(&sink3), "video-display");
}

#[test]
fn test_get_sink_icon_headphone_detection() {
    let sink = make_sink("test.headphones", "Headphones", false);
    assert_eq!(get_sink_icon(&sink), "audio-headphones");

    let sink2 = make_sink("test.bt", "Bluetooth Headset", false);
    assert_eq!(get_sink_icon(&sink2), "audio-headphones");

    let sink3 = make_sink("bluez.sink", "Test", false);
    assert_eq!(get_sink_icon(&sink3), "audio-headphones");

    let sink4 = make_sink("test.sink", "Galaxy Buds Earbuds", false);
    assert_eq!(get_sink_icon(&sink4), "audio-headphones");

    let sink5 = make_sink("test.sink", "Earphone Jack", false);
    assert_eq!(get_sink_icon(&sink5), "audio-headphones");

    let sink6 = make_sink("test.sink", "AirPods Pro", false);
    assert_eq!(get_sink_icon(&sink6), "audio-headphones");
}

#[test]
fn test_get_sink_icon_default_speakers() {
    let sink = make_sink("test.analog", "Analog Stereo", false);
    assert_eq!(get_sink_icon(&sink), "audio-speakers");

    let sink2 = make_sink("test.digital", "Digital Output", false);
    assert_eq!(get_sink_icon(&sink2), "audio-speakers");
}

#[test]
fn test_get_app_icon_reverse_dns() {
    assert_eq!(get_app_icon("org.mozilla.firefox"), "firefox");
    assert_eq!(get_app_icon("org.gnome.Nautilus"), "nautilus");
    assert_eq!(get_app_icon("org.mozilla.Thunderbird"), "thunderbird");
    assert_eq!(get_app_icon("org.videolan.VLC"), "vlc");
    assert_eq!(get_app_icon("com.discordapp.Discord"), "discord");
    assert_eq!(get_app_icon("io.mpv.Mpv"), "mpv");
}

#[test]
fn test_get_app_icon_skips_generic_suffixes() {
    assert_eq!(get_app_icon("org.telegram.desktop"), "telegram");
    assert_eq!(get_app_icon("com.spotify.Client"), "spotify");
    assert_eq!(get_app_icon("org.example.App"), "example");
    assert_eq!(get_app_icon("com.example.Application"), "example");
    assert_eq!(get_app_icon("org.kde.something.qt5"), "something");
}

#[test]
fn test_get_app_icon_simple_names() {
    assert_eq!(get_app_icon("mpv"), "mpv");
    assert_eq!(get_app_icon("steam"), "steam");
    assert_eq!(get_app_icon("Firefox"), "firefox");
    assert_eq!(get_app_icon("Steam"), "steam");
}

#[test]
fn test_get_app_icon_edge_cases() {
    assert_eq!(get_app_icon(""), "");
    assert_eq!(get_app_icon("desktop"), "desktop");
    assert_eq!(get_app_icon("myapp.desktop"), "myapp");
}

#[test]
fn test_get_app_icon_empty_parts_and_case() {
    assert_eq!(get_app_icon("org..GTK4"), "org");
    assert_eq!(get_app_icon("Org.Example.TOOL"), "tool");
    assert_eq!(get_app_icon("app.gui"), "app.gui");
}

#[test]
fn test_get_sink_icon_uppercase_name_detection() {
    let sink = make_sink("ALSA.HDMI.STEREO", "Receiver", false);
    assert_eq!(get_sink_icon(&sink), "video-display");
    let sink2 = make_sink("BlueZ_output.x", "Device", false);
    assert_eq!(get_sink_icon(&sink2), "audio-headphones");
}

#[test]
fn test_switch_message_with_and_without_reason() {
    assert_eq!(switch_message("Headphones", Some("Steam")), "Headphones → Steam");
    assert_eq!(switch_message("Speakers", None), "Speakers");
}

#[test]
fn test_get_app_icon_idempotent_on_ascii() {
    for id in ["org.mozilla.firefox", "com.discordapp.Discord", "Steam", "org.gnome.desktop", "a..b", "", "QT", "io.mpv.Mpv"] {
        let once = get_app_icon(id);
        assert_eq!(get_app_icon(&once), once);
    }
}
