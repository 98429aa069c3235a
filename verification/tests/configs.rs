use vod2pod_rss::configs::{
    cache_ttl, conf, ffmpeg_timeout_seconds, normal_codec_name, rumble_max_results,
    rumble_min_seconds, subfolder_path, transcoding_enabled, youtube_max_results,
    youtube_min_seconds, AudioCodec, Conf, ConfError, ConfName, EnvConf, EnvValue, EnvVar,
};

fn with(vars: &[(&str, &str)]) -> EnvConf {
    conf(
        vars.iter()
            .map(|(name, value)| EnvVar {
                name: name.to_string(),
                value: EnvValue::Text(value.to_string()),
            })
            .collect(),
    )
}

fn unreadable(name: &str) -> EnvConf {
    conf(vec![EnvVar {
        name: name.to_string(),
        value: EnvValue::NotUnicode("\"\\xFF\"".to_string()),
    }])
}

#[test]
fn settings_have_defaults() {
    let none = with(&[]);
    let expected = [
        (ConfName::RedisAddress, "localhost"),
        (ConfName::RedisPort, "6379"),
        (ConfName::RedisUrl, "redis://localhost:6379/"),
        (ConfName::Mp3Bitrate, "192"),
        (ConfName::YoutubeMaxResults, "300"),
        (ConfName::TranscodingEnabled, "true"),
        (ConfName::SubfolderPath, ""),
        (ConfName::ValidUrlDomains, ""),
        (ConfName::AudioCodec, "MP3"),
        (ConfName::PeerTubeValidHosts, ""),
        (ConfName::YoutubeYtDlpExtraArgs, "[]"),
        (ConfName::YoutubeMinSeconds, "0"),
        (ConfName::YoutubeExcludeShorts, "false"),
        (ConfName::PodcastLanguage, "en"),
        (ConfName::ItunesOwnerName, ""),
        (ConfName::ItunesOwnerEmail, ""),
        (ConfName::ItunesCategory, "News"),
        (ConfName::ItunesExplicit, "false"),
        (ConfName::ItunesType, "episodic"),
        (ConfName::PodcastChaptersEnabled, "false"),
        (ConfName::PodcastTranscriptsEnabled, "false"),
        (ConfName::RumbleMaxResults, "300"),
        (ConfName::RumbleMinSeconds, "0"),
        (ConfName::RumbleYtDlpListExtraArgs, "[]"),
        (ConfName::RumbleYtDlpGetUrlExtraArgs, "[]"),
        (ConfName::CacheTTL, "600"),
        (ConfName::FfmpegTimeoutSeconds, "300"),
        (ConfName::FfmpegAudioFilter, ""),
    ];
    for (key, value) in expected {
        assert_eq!(none.get(key), Ok(value.to_string()), "{key:?}");
    }
}

#[test]
fn settings_are_read_from_the_environment() {
    let set = with(&[
        ("REDIS_ADDRESS", "store"),
        ("REDIS_PORT", "7000"),
        ("MP3_BITRATE", "128"),
        ("YT_API_KEY", "SECRET-REDACTED"),
        ("SUBFOLDER", "pods/"),
        ("AUDIO_CODEC", "VORBIS"),
    ]);
    assert_eq!(set.get(ConfName::RedisUrl), Ok("redis://store:7000/".to_string()));
    assert_eq!(set.get(ConfName::Mp3Bitrate), Ok("128".to_string()));
    assert_eq!(set.get(ConfName::YoutubeApiKey), Ok("SECRET-REDACTED".to_string()));
    assert_eq!(set.get(ConfName::SubfolderPath), Ok("/pods".to_string()));
    assert_eq!(set.get(ConfName::AudioCodec), Ok("OGG_VORBIS".to_string()));
}

#[test]
fn keys_that_are_needed_are_missed() {
    let none = with(&[]);
    assert_eq!(none.get(ConfName::YoutubeApiKey), Err(ConfError::NotPresent));
    assert_eq!(none.get(ConfName::TwitchClientId), Err(ConfError::NotPresent));
    assert_eq!(ConfError::NotPresent.message(), "environment variable not found");
}

#[test]
fn keys_that_are_needed_may_not_be_empty() {
    let empty = with(&[("YT_API_KEY", ""), ("TWITCH_CLIENT_ID", ""), ("TWITCH_SECRET", "")]);
    let said = |key: ConfName| empty.get(key).unwrap_err().message();
    assert_eq!(
        empty.get(ConfName::YoutubeApiKey),
        Err(ConfError::Empty(ConfName::YoutubeApiKey))
    );
    assert_eq!(said(ConfName::YoutubeApiKey), "no youtube api key");
    assert_eq!(said(ConfName::TwitchClientId), "no TwitchClientId api key");
    assert_eq!(said(ConfName::TwitchSecretKey), "no TwitchSecretKey api key");
}

#[test]
fn what_is_no_text_is_an_error_or_the_default() {
    let odd = unreadable("YT_API_KEY");
    let refused = odd.get(ConfName::YoutubeApiKey);
    assert_eq!(refused, Err(ConfError::NotUnicode("\"\\xFF\"".to_string())));
    assert_eq!(
        refused.unwrap_err().message(),
        "environment variable was not valid unicode: \"\\xFF\""
    );
    assert_eq!(unreadable("CACHE_TTL").get(ConfName::CacheTTL), Ok("600".to_string()));
}

#[test]
fn subfolders_begin_with_a_slash_and_end_without() {
    assert_eq!(subfolder_path(""), "");
    assert_eq!(subfolder_path("/"), "");
    assert_eq!(subfolder_path("pods"), "/pods");
    assert_eq!(subfolder_path("/pods/"), "/pods");
    assert_eq!(subfolder_path("a/b//"), "/a/b");
}

#[test]
fn codec_names_are_made_normal() {
    assert_eq!(normal_codec_name("OGG"), "OGG_VORBIS");
    assert_eq!(normal_codec_name("VORBIS"), "OGG_VORBIS");
    assert_eq!(normal_codec_name("OGG_VORBIS"), "OGG_VORBIS");
    assert_eq!(normal_codec_name("OPUS"), "OPUS");
    assert_eq!(normal_codec_name("MP3"), "MP3");
    assert_eq!(normal_codec_name("flac"), "MP3");
}

#[test]
fn codecs_know_their_names() {
    let mp3 = AudioCodec::from("MP3".to_string());
    let opus = AudioCodec::from("OPUS".to_string());
    let vorbis = AudioCodec::from("OGG_VORBIS".to_string());
    assert_eq!(AudioCodec::from("?".to_string()), AudioCodec::MP3);
    assert_eq!(AudioCodec::default(), mp3);
    assert_eq!(mp3.get_ffmpeg_codec_str(), "libmp3lame");
    assert_eq!(opus.get_ffmpeg_codec_str(), "libopus");
    assert_eq!(vorbis.get_ffmpeg_codec_str(), "libvorbis");
    assert_eq!((mp3.get_extension_str(), mp3.get_mime_type_str()), ("mp3", "audio/mpeg"));
    assert_eq!((opus.get_extension_str(), opus.get_mime_type_str()), ("webm", "audio/webm"));
    assert_eq!((vorbis.get_extension_str(), vorbis.get_mime_type_str()), ("webm", "audio/webm"));
}

#[test]
fn transcoding_is_on_unless_it_is_off() {
    assert!(transcoding_enabled(&with(&[])));
    assert!(transcoding_enabled(&with(&[("TRANSCODE", "yes")])));
    assert!(!transcoding_enabled(&with(&[("TRANSCODE", "False")])));
}

#[test]
fn numbers_that_cannot_be_read_have_fallbacks() {
    assert_eq!(cache_ttl(&with(&[("CACHE_TTL", "30")])), 30);
    assert_eq!(cache_ttl(&with(&[("CACHE_TTL", "soon")])), 600);
    assert_eq!(rumble_max_results(&with(&[("RUMBLE_MAX_RESULTS", "7")])), 7);
    assert_eq!(rumble_max_results(&with(&[("RUMBLE_MAX_RESULTS", "-7")])), 300);
    assert_eq!(rumble_min_seconds(&with(&[("RUMBLE_MIN_SECONDS", "90")])), 90);
    assert_eq!(rumble_min_seconds(&with(&[])), 0);
    assert_eq!(youtube_max_results(&with(&[])), Some(300));
    assert_eq!(youtube_max_results(&with(&[("YOUTUBE_MAX_RESULTS", "many")])), None);
    assert_eq!(ffmpeg_timeout_seconds(&with(&[])), Some(300));
    assert_eq!(ffmpeg_timeout_seconds(&with(&[("FFMPEG_TIMEOUT_SECONDS", "")])), None);
}

#[test]
fn excluding_shorts_forces_sixty_one_seconds() {
    let exclude = ("YOUTUBE_EXCLUDE_SHORTS", "true");
    assert_eq!(youtube_min_seconds(&with(&[])), 0);
    assert_eq!(youtube_min_seconds(&with(&[exclude])), 61);
    assert_eq!(youtube_min_seconds(&with(&[exclude, ("YOUTUBE_MIN_SECONDS", "30")])), 61);
    assert_eq!(youtube_min_seconds(&with(&[exclude, ("YOUTUBE_MIN_SECONDS", "180")])), 180);
    assert_eq!(youtube_min_seconds(&with(&[("YOUTUBE_MIN_SECONDS", "180")])), 180);
}
