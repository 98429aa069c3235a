//! Settings, read from the environment of the process, and the audio codecs.
use vstd::prelude::*;

verus! {

/// The names of the settings.
#[derive(Clone, Copy, Debug, PartialEq, Eq, Structural)]
pub enum ConfName {
    RedisAddress,
    RedisPort,
    RedisUrl,
    Mp3Bitrate,
    YoutubeApiKey,
    YoutubeMaxResults,
    TwitchClientId,
    TwitchSecretKey,
    TranscodingEnabled,
    SubfolderPath,
    ValidUrlDomains,
    AudioCodec,
    PeerTubeValidHosts,
    YoutubeYtDlpExtraArgs,
    /// Minimum video duration (in seconds) to include in generated YouTube RSS feeds.
    /// Useful for excluding YouTube Shorts.
    YoutubeMinSeconds,
    /// Convenience flag to exclude YouTube Shorts (defaults to false). If true, a
    /// minimum of at least 61 seconds is used.
    YoutubeExcludeShorts,
    PodcastLanguage,
    ItunesOwnerName,
    ItunesOwnerEmail,
    ItunesCategory,
    ItunesExplicit,
    ItunesType,
    PodcastChaptersEnabled,
    PodcastTranscriptsEnabled,
    /// Maximum number of items to include when generating a Rumble RSS feed (defaults to 300).
    RumbleMaxResults,
    /// Minimum video duration (in seconds) to include in generated Rumble RSS feeds.
    /// Useful for excluding short-form clips.
    RumbleMinSeconds,
    /// Additional arguments to pass to yt-dlp when enumerating a Rumble channel/playlist.
    /// Format: JSON array of strings.
    RumbleYtDlpListExtraArgs,
    /// Additional arguments to pass to yt-dlp when extracting a direct media URL from a
    /// Rumble video. Format: JSON array of strings.
    RumbleYtDlpGetUrlExtraArgs,
    CacheTTL,
    FfmpegTimeoutSeconds,
    /// Optional FFmpeg audio filter chain applied during transcoding.
    /// Example: dynaudnorm=f=150:g=12:m=10,alimiter=limit=0.98
    FfmpegAudioFilter,
}

/// What a variable of the environment holds.
#[derive(Debug, PartialEq, Eq)]
pub enum EnvValue {
    /// A text.
    Text(String),
    /// Something that is no Unicode text, as it prints for inspection.
    NotUnicode(String),
}

/// A variable of the environment.
#[derive(Debug, PartialEq, Eq)]
pub struct EnvVar {
    pub name: String,
    pub value: EnvValue,
}

/// An [`EnvValue`] with its text as a sequence of characters.
pub enum EnvValueModel {
    Text(Seq<char>),
    NotUnicode(Seq<char>),
}

/// An [`EnvVar`] with its texts as sequences of characters.
pub struct EnvVarModel {
    pub name: Seq<char>,
    pub value: EnvValueModel,
}

impl DeepView for EnvValue {
    type V = EnvValueModel;

    open spec fn deep_view(&self) -> EnvValueModel {
        match self {
            EnvValue::Text(text) => EnvValueModel::Text(text@),
            EnvValue::NotUnicode(shown) => EnvValueModel::NotUnicode(shown@),
        }
    }
}

impl DeepView for EnvVar {
    type V = EnvVarModel;

    open spec fn deep_view(&self) -> EnvVarModel {
        EnvVarModel { name: self.name@, value: self.value.deep_view() }
    }
}

/// Why a setting has no value.
#[derive(Debug, PartialEq, Eq)]
pub enum ConfError {
    /// The variable is not in the environment.
    NotPresent,
    /// The variable holds something that is no Unicode text, shown here.
    NotUnicode(String),
    /// The variable holds the empty text, which is no value for this setting.
    Empty(ConfName),
}

/// A [`ConfError`] with its text as a sequence of characters.
pub enum ConfErrorModel {
    NotPresent,
    NotUnicode(Seq<char>),
    Empty(ConfName),
}

impl DeepView for ConfError {
    type V = ConfErrorModel;

    open spec fn deep_view(&self) -> ConfErrorModel {
        match self {
            ConfError::NotPresent => ConfErrorModel::NotPresent,
            ConfError::NotUnicode(shown) => ConfErrorModel::NotUnicode(shown@),
            ConfError::Empty(key) => ConfErrorModel::Empty(*key),
        }
    }
}

impl ConfErrorModel {
    /// The error in words.
    pub open spec fn message(self) -> Seq<char> {
        match self {
            ConfErrorModel::NotPresent => "environment variable not found"@,
            ConfErrorModel::NotUnicode(shown) => "environment variable was not valid unicode: "@
                + shown,
            ConfErrorModel::Empty(key) => match key {
                ConfName::TwitchClientId => "no TwitchClientId api key"@,
                ConfName::TwitchSecretKey => "no TwitchSecretKey api key"@,
                _ => "no youtube api key"@,
            },
        }
    }
}

impl ConfError {
    /// The error in words.
    pub fn message(&self) -> (r: String)
        ensures
            r@ == self.deep_view().message(),
    {
        match self {
            ConfError::NotPresent => "environment variable not found".to_string(),
            ConfError::NotUnicode(shown) => crate::text::join(
                "environment variable was not valid unicode: ",
                shown.as_str(),
            ),
            ConfError::Empty(key) => match key {
                ConfName::TwitchClientId => "no TwitchClientId api key".to_string(),
                ConfName::TwitchSecretKey => "no TwitchSecretKey api key".to_string(),
                _ => "no youtube api key".to_string(),
            },
        }
    }
}

/// A value with its text, or an error with its text, as sequences of characters.
pub open spec fn outcome(r: Result<String, ConfError>) -> Result<Seq<char>, ConfErrorModel> {
    match r {
        Ok(text) => Ok(text@),
        Err(e) => Err(e.deep_view()),
    }
}

/// The value of a variable: that of the first entry with its name.
pub open spec fn variable(env: Seq<EnvVarModel>, name: Seq<char>) -> Result<
    Seq<char>,
    ConfErrorModel,
>
    decreases env.len(),
{
    if env.len() == 0 {
        Err(ConfErrorModel::NotPresent)
    } else if env[0].name == name {
        match env[0].value {
            EnvValueModel::Text(text) => Ok(text),
            EnvValueModel::NotUnicode(shown) => Err(ConfErrorModel::NotUnicode(shown)),
        }
    } else {
        variable(env.skip(1), name)
    }
}

/// The value of a variable, or a default if it has none.
pub open spec fn or_default(env: Seq<EnvVarModel>, name: Seq<char>, default: Seq<char>) -> Seq<
    char,
> {
    match variable(env, name) {
        Ok(text) => text,
        Err(_) => default,
    }
}

/// The value of a variable that must not be the empty text.
pub open spec fn required(env: Seq<EnvVarModel>, name: Seq<char>, key: ConfName) -> Result<
    Seq<char>,
    ConfErrorModel,
> {
    match variable(env, name) {
        Ok(text) => if text.len() == 0 {
            Err(ConfErrorModel::Empty(key))
        } else {
            Ok(text)
        },
        Err(e) => Err(e),
    }
}

/// A path without the slashes that it ends with.
pub open spec fn without_end_slashes(path: Seq<char>) -> Seq<char>
    decreases path.len(),
{
    if path.len() > 0 && path.last() == '/' {
        without_end_slashes(path.drop_last())
    } else {
        path
    }
}

/// A path that begins with a slash and does not end with one; the root is empty.
pub open spec fn rooted(path: Seq<char>) -> Seq<char> {
    without_end_slashes(
        if path.len() > 0 && path[0] == '/' {
            path
        } else {
            seq!['/'] + path
        },
    )
}

/// The name of the codec that a name stands for; MP3 if it is not known.
pub open spec fn codec_name(name: Seq<char>) -> Seq<char> {
    if name == "MP3"@ || name == "OPUS"@ || name == "OGG_VORBIS"@ {
        name
    } else if name == "OGG"@ || name == "VORBIS"@ {
        "OGG_VORBIS"@
    } else {
        "MP3"@
    }
}

/// The value of a setting in an environment.
pub open spec fn setting_in(env: Seq<EnvVarModel>, key: ConfName) -> Result<
    Seq<char>,
    ConfErrorModel,
> {
    match key {
        ConfName::RedisUrl => Ok(
            "redis://"@ + or_default(env, "REDIS_ADDRESS"@, "localhost"@) + ":"@ + or_default(
                env,
                "REDIS_PORT"@,
                "6379"@,
            ) + "/"@,
        ),
        ConfName::TwitchClientId => required(env, "TWITCH_CLIENT_ID"@, key),
        ConfName::TwitchSecretKey => required(env, "TWITCH_SECRET"@, key),
        ConfName::YoutubeApiKey => required(env, "YT_API_KEY"@, key),
        ConfName::SubfolderPath => Ok(rooted(or_default(env, "SUBFOLDER"@, ""@))),
        ConfName::AudioCodec => Ok(codec_name(or_default(env, "AUDIO_CODEC"@, "MP3"@))),
        ConfName::RedisAddress => Ok(or_default(env, "REDIS_ADDRESS"@, "localhost"@)),
        ConfName::RedisPort => Ok(or_default(env, "REDIS_PORT"@, "6379"@)),
        ConfName::Mp3Bitrate => Ok(or_default(env, "MP3_BITRATE"@, "192"@)),
        ConfName::TranscodingEnabled => Ok(or_default(env, "TRANSCODE"@, "true"@)),
        ConfName::ValidUrlDomains => Ok(or_default(env, "VALID_URL_DOMAINS"@, ""@)),
        ConfName::PeerTubeValidHosts => Ok(or_default(env, "PEERTUBE_VALID_DOMAINS"@, ""@)),
        ConfName::YoutubeMaxResults => Ok(or_default(env, "YOUTUBE_MAX_RESULTS"@, "300"@)),
        ConfName::YoutubeYtDlpExtraArgs => Ok(or_default(env, "YOUTUBE_YT_DLP_GET_URL_EXTRA_ARGS"@, "[]"@)),
        ConfName::YoutubeMinSeconds => Ok(or_default(env, "YOUTUBE_MIN_SECONDS"@, "0"@)),
        ConfName::YoutubeExcludeShorts => Ok(or_default(env, "YOUTUBE_EXCLUDE_SHORTS"@, "false"@)),
        ConfName::PodcastLanguage => Ok(or_default(env, "PODCAST_LANGUAGE"@, "en"@)),
        ConfName::ItunesOwnerName => Ok(or_default(env, "ITUNES_OWNER_NAME"@, ""@)),
        ConfName::ItunesOwnerEmail => Ok(or_default(env, "ITUNES_OWNER_EMAIL"@, ""@)),
        ConfName::ItunesCategory => Ok(or_default(env, "ITUNES_CATEGORY"@, "News"@)),
        ConfName::ItunesExplicit => Ok(or_default(env, "ITUNES_EXPLICIT"@, "false"@)),
        ConfName::ItunesType => Ok(or_default(env, "ITUNES_TYPE"@, "episodic"@)),
        ConfName::PodcastChaptersEnabled => Ok(or_default(env, "PODCAST_CHAPTERS"@, "false"@)),
        ConfName::PodcastTranscriptsEnabled => Ok(or_default(env, "PODCAST_TRANSCRIPTS"@, "false"@)),
        ConfName::RumbleMaxResults => Ok(or_default(env, "RUMBLE_MAX_RESULTS"@, "300"@)),
        ConfName::RumbleMinSeconds => Ok(or_default(env, "RUMBLE_MIN_SECONDS"@, "0"@)),
        ConfName::RumbleYtDlpListExtraArgs => Ok(or_default(env, "RUMBLE_YT_DLP_LIST_EXTRA_ARGS"@, "[]"@)),
        ConfName::RumbleYtDlpGetUrlExtraArgs => Ok(or_default(env, "RUMBLE_YT_DLP_GET_URL_EXTRA_ARGS"@, "[]"@)),
        ConfName::CacheTTL => Ok(or_default(env, "CACHE_TTL"@, "600"@)),
        ConfName::FfmpegTimeoutSeconds => Ok(or_default(env, "FFMPEG_TIMEOUT_SECONDS"@, "300"@)),
        ConfName::FfmpegAudioFilter => Ok(or_default(env, "FFMPEG_AUDIO_FILTER"@, ""@)),
    }
}

/// A source of settings.
pub trait Conf {
    /// The value of a setting.
    spec fn setting(&self, key: ConfName) -> Result<Seq<char>, ConfErrorModel>;

    /// Looks a setting up.
    fn get(&self, key: ConfName) -> (r: Result<String, ConfError>)
        ensures
            outcome(r) == self.setting(key),
    ;
}

/// The settings in the environment of a process.
pub struct EnvConf {
    pub vars: Vec<EnvVar>,
}

/// The settings that the variables of an environment hold.
pub fn conf(vars: Vec<EnvVar>) -> (r: EnvConf)
    ensures
        r.vars == vars,
        forall|key: ConfName| #[trigger]
            r.setting(key) == setting_in(vars.deep_view(), key),
{
    EnvConf { vars }
}

impl EnvConf {
    /// Looks a variable up.
    pub fn var(&self, name: &str) -> (r: Result<String, ConfError>)
        ensures
            outcome(r) == variable(self.vars.deep_view(), name@),
    {
        let mut i: usize = 0;
        let ghost env = self.vars.deep_view();
        assert(env.skip(0) =~= env);
        while i < self.vars.len()
            invariant
                i <= self.vars.len(),
                env == self.vars.deep_view(),
                variable(env, name@) == variable(env.skip(i as int), name@),
            decreases self.vars.len() - i,
        {
            assert(env.skip(i as int)[0] == self.vars@[i as int].deep_view());
            if crate::text::same(self.vars[i].name.as_str(), name) {
                return match &self.vars[i].value {
                    EnvValue::Text(text) => Ok(text.clone()),
                    EnvValue::NotUnicode(shown) => Err(ConfError::NotUnicode(shown.clone())),
                };
            }
            assert(env.skip(i as int).skip(1) =~= env.skip(i + 1));
            i += 1;
        }
        Err(ConfError::NotPresent)
    }

    fn or_default(&self, name: &str, default: &str) -> (r: String)
        ensures
            r@ == or_default(self.vars.deep_view(), name@, default@),
    {
        match self.var(name) {
            Ok(text) => text,
            Err(_) => default.to_string(),
        }
    }

    fn required(&self, name: &str, key: ConfName) -> (r: Result<String, ConfError>)
        ensures
            outcome(r) == required(self.vars.deep_view(), name@, key),
    {
        match self.var(name) {
            Ok(text) => if text.as_str().is_empty() {
                Err(ConfError::Empty(key))
            } else {
                Ok(text)
            },
            Err(e) => Err(e),
        }
    }

    fn redis_url(&self) -> (r: String)
        ensures
            Ok::<Seq<char>, ConfErrorModel>(r@) == setting_in(
                self.vars.deep_view(),
                ConfName::RedisUrl,
            ),
    {
        let mut url = crate::text::join(
            "redis://",
            self.or_default("REDIS_ADDRESS", "localhost").as_str(),
        );
        url.append(":");
        url.append(self.or_default("REDIS_PORT", "6379").as_str());
        url.append("/");
        url
    }
}

impl Conf for EnvConf {
    open spec fn setting(&self, key: ConfName) -> Result<Seq<char>, ConfErrorModel> {
        setting_in(self.vars.deep_view(), key)
    }

    fn get(&self, key: ConfName) -> (r: Result<String, ConfError>) {
        match key {
            ConfName::RedisUrl => Ok(self.redis_url()),
            ConfName::TwitchClientId => self.required("TWITCH_CLIENT_ID", key),
            ConfName::TwitchSecretKey => self.required("TWITCH_SECRET", key),
            ConfName::YoutubeApiKey => self.required("YT_API_KEY", key),
            ConfName::SubfolderPath => Ok(
                subfolder_path(self.or_default("SUBFOLDER", "").as_str()),
            ),
            ConfName::AudioCodec => Ok(
                normal_codec_name(self.or_default("AUDIO_CODEC", "MP3").as_str()),
            ),
            ConfName::RedisAddress => Ok(self.or_default("REDIS_ADDRESS", "localhost")),
            ConfName::RedisPort => Ok(self.or_default("REDIS_PORT", "6379")),
            ConfName::Mp3Bitrate => Ok(self.or_default("MP3_BITRATE", "192")),
            ConfName::TranscodingEnabled => Ok(self.or_default("TRANSCODE", "true")),
            ConfName::ValidUrlDomains => Ok(self.or_default("VALID_URL_DOMAINS", "")),
            ConfName::PeerTubeValidHosts => Ok(self.or_default("PEERTUBE_VALID_DOMAINS", "")),
            ConfName::YoutubeMaxResults => Ok(self.or_default("YOUTUBE_MAX_RESULTS", "300")),
            ConfName::YoutubeYtDlpExtraArgs => Ok(self.or_default("YOUTUBE_YT_DLP_GET_URL_EXTRA_ARGS", "[]")),
            ConfName::YoutubeMinSeconds => Ok(self.or_default("YOUTUBE_MIN_SECONDS", "0")),
            ConfName::YoutubeExcludeShorts => Ok(self.or_default("YOUTUBE_EXCLUDE_SHORTS", "false")),
            ConfName::PodcastLanguage => Ok(self.or_default("PODCAST_LANGUAGE", "en")),
            ConfName::ItunesOwnerName => Ok(self.or_default("ITUNES_OWNER_NAME", "")),
            ConfName::ItunesOwnerEmail => Ok(self.or_default("ITUNES_OWNER_EMAIL", "")),
            ConfName::ItunesCategory => Ok(self.or_default("ITUNES_CATEGORY", "News")),
            ConfName::ItunesExplicit => Ok(self.or_default("ITUNES_EXPLICIT", "false")),
            ConfName::ItunesType => Ok(self.or_default("ITUNES_TYPE", "episodic")),
            ConfName::PodcastChaptersEnabled => Ok(self.or_default("PODCAST_CHAPTERS", "false")),
            ConfName::PodcastTranscriptsEnabled => Ok(self.or_default("PODCAST_TRANSCRIPTS", "false")),
            ConfName::RumbleMaxResults => Ok(self.or_default("RUMBLE_MAX_RESULTS", "300")),
            ConfName::RumbleMinSeconds => Ok(self.or_default("RUMBLE_MIN_SECONDS", "0")),
            ConfName::RumbleYtDlpListExtraArgs => Ok(self.or_default("RUMBLE_YT_DLP_LIST_EXTRA_ARGS", "[]")),
            ConfName::RumbleYtDlpGetUrlExtraArgs => Ok(self.or_default("RUMBLE_YT_DLP_GET_URL_EXTRA_ARGS", "[]")),
            ConfName::CacheTTL => Ok(self.or_default("CACHE_TTL", "600")),
            ConfName::FfmpegTimeoutSeconds => Ok(self.or_default("FFMPEG_TIMEOUT_SECONDS", "300")),
            ConfName::FfmpegAudioFilter => Ok(self.or_default("FFMPEG_AUDIO_FILTER", "")),
        }
    }
}

/// Makes a path begin with a slash and not end with one.
pub fn subfolder_path(path: &str) -> (r: String)
    ensures
        r@ == rooted(path@),
{
    let mut folder = crate::text::chars_of(path);
    if folder.len() == 0 || folder[0] != '/' {
        folder.insert(0, '/');
        assert(folder@ =~= seq!['/'] + path@);
    }
    let ghost full = folder@;
    while folder.len() > 0 && folder[folder.len() - 1] == '/'
        invariant
            without_end_slashes(full) == without_end_slashes(folder@),
        decreases folder.len(),
    {
        folder.pop();
    }
    let r = crate::text::text_of(&folder, 0, folder.len());
    assert(r@ =~= folder@);
    r
}

/// The name of the codec that a name stands for; MP3 if it is not known.
pub fn normal_codec_name(name: &str) -> (r: String)
    ensures
        r@ == codec_name(name@),
{
    if crate::text::same(name, "MP3") || crate::text::same(name, "OPUS") || crate::text::same(
        name,
        "OGG_VORBIS",
    ) {
        name.to_string()
    } else if crate::text::same(name, "OGG") || crate::text::same(name, "VORBIS") {
        "OGG_VORBIS".to_string()
    } else {
        "MP3".to_string()
    }
}

/// The codecs that a stream can be encoded with.
#[derive(Clone, Copy, Debug, PartialEq, Eq, Structural)]
pub enum AudioCodec {
    MP3,
    Opus,
    OGGVorbis,
}

impl AudioCodec {
    /// The name of FFmpeg's encoder.
    pub open spec fn ffmpeg_codec(self) -> Seq<char> {
        match self {
            AudioCodec::MP3 => "libmp3lame"@,
            AudioCodec::Opus => "libopus"@,
            AudioCodec::OGGVorbis => "libvorbis"@,
        }
    }

    /// The extension of a file in this codec.
    pub open spec fn extension(self) -> Seq<char> {
        match self {
            AudioCodec::MP3 => "mp3"@,
            AudioCodec::Opus => "webm"@,
            AudioCodec::OGGVorbis => "webm"@,
        }
    }

    /// The media type of a stream in this codec.
    pub open spec fn mime_type(self) -> Seq<char> {
        match self {
            AudioCodec::MP3 => "audio/mpeg"@,
            AudioCodec::Opus => "audio/webm"@,
            AudioCodec::OGGVorbis => "audio/webm"@,
        }
    }

    /// The name of FFmpeg's encoder.
    pub fn get_ffmpeg_codec_str(&self) -> (r: &'static str)
        ensures
            r@ == self.ffmpeg_codec(),
    {
        match self {
            AudioCodec::MP3 => "libmp3lame",
            AudioCodec::Opus => "libopus",
            AudioCodec::OGGVorbis => "libvorbis",
        }
    }

    /// The extension of a file in this codec.
    pub fn get_extension_str(&self) -> (r: &'static str)
        ensures
            r@ == self.extension(),
    {
        match self {
            AudioCodec::MP3 => "mp3",
            AudioCodec::Opus => "webm",
            AudioCodec::OGGVorbis => "webm",
        }
    }

    /// The media type of a stream in this codec.
    pub fn get_mime_type_str(&self) -> (r: &'static str)
        ensures
            r@ == self.mime_type(),
    {
        match self {
            AudioCodec::MP3 => "audio/mpeg",
            AudioCodec::Opus => "audio/webm",
            AudioCodec::OGGVorbis => "audio/webm",
        }
    }
}

/// The codec with a name; MP3 if there is none with that name.
pub open spec fn codec_named(name: Seq<char>) -> AudioCodec {
    if name == "OPUS"@ {
        AudioCodec::Opus
    } else if name == "OGG_VORBIS"@ {
        AudioCodec::OGGVorbis
    } else {
        AudioCodec::MP3
    }
}

impl From<String> for AudioCodec {
    fn from(value: String) -> (r: AudioCodec) {
        if crate::text::same(value.as_str(), "OPUS") {
            AudioCodec::Opus
        } else if crate::text::same(value.as_str(), "OGG_VORBIS") {
            AudioCodec::OGGVorbis
        } else {
            AudioCodec::MP3
        }
    }
}

impl vstd::std_specs::convert::FromSpecImpl<String> for AudioCodec {
    open spec fn obeys_from_spec() -> bool {
        true
    }

    open spec fn from_spec(value: String) -> AudioCodec {
        codec_named(value@)
    }
}

impl Default for AudioCodec {
    fn default() -> (r: AudioCodec)
        ensures
            r == AudioCodec::MP3,
    {
        AudioCodec::MP3
    }
}

proof fn lemma_without_end_slashes(path: Seq<char>)
    ensures
        without_end_slashes(path).len() <= path.len(),
        without_end_slashes(path).len() == 0 || without_end_slashes(path).last() != '/',
        without_end_slashes(path).len() > 0 ==> without_end_slashes(path)[0] == path[0],
        without_end_slashes(without_end_slashes(path)) == without_end_slashes(path),
    decreases path.len(),
{
    if path.len() > 0 && path.last() == '/' {
        lemma_without_end_slashes(path.drop_last());
    }
}

/// The subfolder is empty or begins with a slash, and never ends with one; a path
/// that is already in that form stays as it is.
pub proof fn subfolders_are_rooted(path: Seq<char>)
    ensures
        rooted(path).len() > 0 ==> rooted(path)[0] == '/' && rooted(path).last() != '/',
        rooted(rooted(path)) == rooted(path),
{
    let full = if path.len() > 0 && path[0] == '/' {
        path
    } else {
        seq!['/'] + path
    };
    lemma_without_end_slashes(full);
    if rooted(path).len() == 0 {
        let root = seq!['/'] + rooted(path);
        assert(root.drop_last() =~= Seq::<char>::empty());
        reveal_with_fuel(without_end_slashes, 2);
        assert(rooted(path) =~= Seq::<char>::empty());
    }
}

/// Whatever the codec variable holds, the setting is the name of one of the three
/// codecs, and only `OPUS` and the three names of Vorbis lead away from MP3.
pub proof fn codec_settings_name_codecs(name: Seq<char>)
    ensures
        codec_name(codec_name(name)) == codec_name(name),
        codec_named(codec_name(name)) == if name == "OPUS"@ {
            AudioCodec::Opus
        } else if name == "OGG"@ || name == "VORBIS"@ || name == "OGG_VORBIS"@ {
            AudioCodec::OGGVorbis
        } else {
            AudioCodec::MP3
        },
{
    reveal_strlit("MP3");
    reveal_strlit("OPUS");
    reveal_strlit("OGG");
    reveal_strlit("VORBIS");
    reveal_strlit("OGG_VORBIS");
    assert("MP3"@.len() == 3 && "MP3"@[0] == 'M');
    assert("OPUS"@.len() == 4 && "OPUS"@[0] == 'O');
    assert("OGG"@.len() == 3 && "OGG"@[0] == 'O');
    assert("VORBIS"@.len() == 6);
    assert("OGG_VORBIS"@.len() == 10);
}

/// Whether streams are transcoded: unless the setting says `false`.
pub open spec fn transcodes(setting: Result<Seq<char>, ConfErrorModel>) -> bool {
    setting matches Ok(text) ==> !crate::text::same_but_case(text, "false"@)
}

/// Whether streams are transcoded.
pub fn transcoding_enabled<C: Conf>(conf: &C) -> (r: bool)
    ensures
        r == transcodes(conf.setting(ConfName::TranscodingEnabled)),
{
    match conf.get(ConfName::TranscodingEnabled) {
        Ok(text) => !crate::text::equal_but_case(text.as_str(), "false"),
        Err(_) => true,
    }
}

/// The number that a setting writes, or `fallback` if it writes none up to `limit`.
pub open spec fn number_or(
    setting: Result<Seq<char>, ConfErrorModel>,
    limit: nat,
    fallback: nat,
) -> nat {
    match setting {
        Ok(text) => match crate::numerals::number_in(text, limit) {
            Some(n) => n,
            None => fallback,
        },
        Err(_) => fallback,
    }
}

fn read_or<C: Conf>(conf: &C, key: ConfName, limit: u64, fallback: u64) -> (r: u64)
    ensures
        r == number_or(conf.setting(key), limit as nat, fallback as nat),
{
    match conf.get(key) {
        Ok(text) => match crate::numerals::read_number(text.as_str(), limit) {
            Some(n) => n,
            None => fallback,
        },
        Err(_) => fallback,
    }
}

/// For how many seconds a generated feed is kept: 600 unless the setting is a number.
pub fn cache_ttl<C: Conf>(conf: &C) -> (r: u64)
    ensures
        r == number_or(conf.setting(ConfName::CacheTTL), u64::MAX as nat, 600),
{
    read_or(conf, ConfName::CacheTTL, u64::MAX, 600)
}

/// Whether a setting says `true`.
pub open spec fn is_true(setting: Result<Seq<char>, ConfErrorModel>) -> bool {
    setting matches Ok(text) && crate::text::same_but_case(text, "true"@)
}

/// The fewest seconds that a YouTube video must last to be listed: the minimum
/// that is set, and at least 61 where Shorts are excluded.
pub open spec fn least_youtube_seconds(
    min_seconds: Result<Seq<char>, ConfErrorModel>,
    exclude_shorts: Result<Seq<char>, ConfErrorModel>,
) -> nat {
    let least = number_or(min_seconds, u64::MAX as nat, 0);
    if least < 61 && is_true(exclude_shorts) {
        61
    } else {
        least
    }
}

/// The fewest seconds that a YouTube video must last to be listed.
pub fn youtube_min_seconds<C: Conf>(conf: &C) -> (r: u64)
    ensures
        r == least_youtube_seconds(
            conf.setting(ConfName::YoutubeMinSeconds),
            conf.setting(ConfName::YoutubeExcludeShorts),
        ),
{
    let least = read_or(conf, ConfName::YoutubeMinSeconds, u64::MAX, 0);
    if least < 61 {
        if let Ok(text) = conf.get(ConfName::YoutubeExcludeShorts) {
            if crate::text::equal_but_case(text.as_str(), "true") {
                return 61;
            }
        }
    }
    least
}

/// The number that a setting writes, if it writes one up to `limit`.
pub open spec fn number_set(setting: Result<Seq<char>, ConfErrorModel>, limit: nat) -> Option<nat> {
    match setting {
        Ok(text) => crate::numerals::number_in(text, limit),
        Err(_) => None,
    }
}

fn read_set<C: Conf>(conf: &C, key: ConfName, limit: u64) -> (r: Option<u64>)
    ensures
        match r {
            Some(n) => number_set(conf.setting(key), limit as nat) == Some(n as nat),
            None => number_set(conf.setting(key), limit as nat) is None,
        },
{
    match conf.get(key) {
        Ok(text) => crate::numerals::read_number(text.as_str(), limit),
        Err(_) => None,
    }
}

/// The most videos that are fetched from a YouTube playlist, if the setting is a
/// number.
pub fn youtube_max_results<C: Conf>(conf: &C) -> (r: Option<usize>)
    ensures
        match r {
            Some(n) => number_set(conf.setting(ConfName::YoutubeMaxResults), usize::MAX as nat)
                == Some(n as nat),
            None => number_set(conf.setting(ConfName::YoutubeMaxResults), usize::MAX as nat)
                is None,
        },
{
    match read_set(conf, ConfName::YoutubeMaxResults, usize::MAX as u64) {
        Some(n) => Some(n as usize),
        None => None,
    }
}

/// The seconds after which a transcoding is given up, if the setting is a number.
pub fn ffmpeg_timeout_seconds<C: Conf>(conf: &C) -> (r: Option<u64>)
    ensures
        match r {
            Some(n) => number_set(conf.setting(ConfName::FfmpegTimeoutSeconds), u64::MAX as nat)
                == Some(n as nat),
            None => number_set(conf.setting(ConfName::FfmpegTimeoutSeconds), u64::MAX as nat)
                is None,
        },
{
    read_set(conf, ConfName::FfmpegTimeoutSeconds, u64::MAX)
}

/// The most videos that are listed of a Rumble channel: 300 unless the setting is
/// a number.
pub fn rumble_max_results<C: Conf>(conf: &C) -> (r: usize)
    ensures
        r == number_or(conf.setting(ConfName::RumbleMaxResults), usize::MAX as nat, 300),
{
    read_or(conf, ConfName::RumbleMaxResults, usize::MAX as u64, 300) as usize
}

/// The fewest seconds that a Rumble video must last to be listed: none unless the
/// setting is a number.
pub fn rumble_min_seconds<C: Conf>(conf: &C) -> (r: u64)
    ensures
        r == number_or(conf.setting(ConfName::RumbleMinSeconds), u64::MAX as nat, 0),
{
    read_or(conf, ConfName::RumbleMinSeconds, u64::MAX, 0)
}

/// With Shorts excluded no video of 60 seconds or less passes, and a higher
/// minimum that was set stays in force.
pub proof fn excluding_shorts_forces_a_minimum(
    min_seconds: Result<Seq<char>, ConfErrorModel>,
    exclude_shorts: Seq<char>,
)
    requires
        crate::text::same_but_case(exclude_shorts, "true"@),
    ensures
        least_youtube_seconds(min_seconds, Ok(exclude_shorts)) >= 61,
        least_youtube_seconds(min_seconds, Ok(exclude_shorts)) >= number_or(
            min_seconds,
            u64::MAX as nat,
            0,
        ),
        number_or(min_seconds, u64::MAX as nat, 0) >= 61 ==> least_youtube_seconds(
            min_seconds,
            Ok(exclude_shorts),
        ) == number_or(min_seconds, u64::MAX as nat, 0),
{
}

/// Whether a variable of the environment is the one with a name: the first that has it.
pub open spec fn is_variable(vars: Seq<EnvVar>, name: Seq<char>, at: int) -> bool {
    &&& 0 <= at < vars.len()
    &&& vars[at].name@ == name
    &&& forall|i: int| 0 <= i < at ==> (#[trigger] vars[i]).name@ != name
}

proof fn lemma_variable(vars: Vec<EnvVar>, name: Seq<char>)
    ensures
        forall|at: int| #[trigger] is_variable(vars@, name, at) ==> match vars@[at].value {
            EnvValue::Text(text) => variable(vars.deep_view(), name) == Ok::<
                Seq<char>,
                ConfErrorModel,
            >(text@),
            EnvValue::NotUnicode(shown) => variable(vars.deep_view(), name) == Err::<
                Seq<char>,
                ConfErrorModel,
            >(ConfErrorModel::NotUnicode(shown@)),
        },
        (forall|i: int| 0 <= i < vars@.len() ==> (#[trigger] vars@[i]).name@ != name)
            ==> variable(vars.deep_view(), name) == Err::<Seq<char>, ConfErrorModel>(
            ConfErrorModel::NotPresent,
        ),
{
    let env = vars.deep_view();
    assert forall|i: int| 0 <= i < env.len() implies #[trigger] env[i]
        == vars@[i].deep_view() by {}
    assert forall|at: int| #[trigger] is_variable(vars@, name, at) implies match vars@[at].value {
        EnvValue::Text(text) => variable(env, name) == Ok::<Seq<char>, ConfErrorModel>(text@),
        EnvValue::NotUnicode(shown) => variable(env, name) == Err::<Seq<char>, ConfErrorModel>(
            ConfErrorModel::NotUnicode(shown@),
        ),
    } by {
        assert forall|i: int| 0 <= i < at implies (#[trigger] env[i]).name != name by {
            assert(vars@[i].name@ != name);
        }
        lemma_first_variable(env, name, at);
        assert(env[at] == vars@[at].deep_view());
    }
    if forall|i: int| 0 <= i < vars@.len() ==> (#[trigger] vars@[i]).name@ != name {
        assert forall|i: int| 0 <= i < env.len() implies (#[trigger] env[i]).name != name by {
            assert(vars@[i].name@ != name);
        }
        lemma_first_variable(env, name, env.len() as int);
    }
}

proof fn lemma_first_variable(env: Seq<EnvVarModel>, name: Seq<char>, at: int)
    requires
        0 <= at <= env.len(),
        forall|i: int| 0 <= i < at ==> (#[trigger] env[i]).name != name,
        at < env.len() ==> env[at].name == name,
    ensures
        at < env.len() ==> variable(env, name) == match env[at].value {
            EnvValueModel::Text(text) => Ok::<Seq<char>, ConfErrorModel>(text),
            EnvValueModel::NotUnicode(shown) => Err(ConfErrorModel::NotUnicode(shown)),
        },
        at == env.len() ==> variable(env, name) == Err::<Seq<char>, ConfErrorModel>(
            ConfErrorModel::NotPresent,
        ),
    decreases env.len(),
{
    if at > 0 {
        let rest = env.skip(1);
        assert(env[0].name != name);
        assert forall|i: int| 0 <= i < at - 1 implies (#[trigger] rest[i]).name != name by {
            assert(rest[i] == env[i + 1]);
        }
        lemma_first_variable(rest, name, at - 1);
    }
}

/// Of several variables with one name the first is looked up; what is no Unicode text,
/// and what is not there, is told.
pub proof fn variables_are_looked_up(conf: &EnvConf, name: &str, r: Result<String, ConfError>)
    requires
        call_ensures(EnvConf::var, (conf, name), r),
    ensures
        forall|at: int| #[trigger] is_variable(conf.vars@, name@, at) ==> match conf.vars@[at].value {
            EnvValue::Text(text) => r is Ok && r->Ok_0@ == text@,
            EnvValue::NotUnicode(shown) => r is Err && r->Err_0 is NotUnicode
                && r->Err_0->NotUnicode_0@ == shown@,
        },
        (forall|i: int| 0 <= i < conf.vars@.len() ==> (#[trigger] conf.vars@[i]).name@ != name@)
            ==> r is Err && r->Err_0 is NotPresent,
{
    lemma_variable(conf.vars, name@);
}

/// The variable that a setting is read from, as it is, and the text that stands for it
/// where the variable holds none. Three settings are read otherwise.
pub open spec fn documented(key: ConfName) -> (Seq<char>, Seq<char>)
    recommends
        !(key is RedisUrl || key is SubfolderPath || key is AudioCodec),
{
    match key {
        ConfName::RedisAddress => ("REDIS_ADDRESS"@, "localhost"@),
        ConfName::RedisPort => ("REDIS_PORT"@, "6379"@),
        ConfName::Mp3Bitrate => ("MP3_BITRATE"@, "192"@),
        ConfName::TranscodingEnabled => ("TRANSCODE"@, "true"@),
        ConfName::ValidUrlDomains => ("VALID_URL_DOMAINS"@, ""@),
        ConfName::PeerTubeValidHosts => ("PEERTUBE_VALID_DOMAINS"@, ""@),
        ConfName::YoutubeMaxResults => ("YOUTUBE_MAX_RESULTS"@, "300"@),
        ConfName::YoutubeYtDlpExtraArgs => ("YOUTUBE_YT_DLP_GET_URL_EXTRA_ARGS"@, "[]"@),
        ConfName::YoutubeMinSeconds => ("YOUTUBE_MIN_SECONDS"@, "0"@),
        ConfName::YoutubeExcludeShorts => ("YOUTUBE_EXCLUDE_SHORTS"@, "false"@),
        ConfName::PodcastLanguage => ("PODCAST_LANGUAGE"@, "en"@),
        ConfName::ItunesOwnerName => ("ITUNES_OWNER_NAME"@, ""@),
        ConfName::ItunesOwnerEmail => ("ITUNES_OWNER_EMAIL"@, ""@),
        ConfName::ItunesCategory => ("ITUNES_CATEGORY"@, "News"@),
        ConfName::ItunesExplicit => ("ITUNES_EXPLICIT"@, "false"@),
        ConfName::ItunesType => ("ITUNES_TYPE"@, "episodic"@),
        ConfName::PodcastChaptersEnabled => ("PODCAST_CHAPTERS"@, "false"@),
        ConfName::PodcastTranscriptsEnabled => ("PODCAST_TRANSCRIPTS"@, "false"@),
        ConfName::RumbleMaxResults => ("RUMBLE_MAX_RESULTS"@, "300"@),
        ConfName::RumbleMinSeconds => ("RUMBLE_MIN_SECONDS"@, "0"@),
        ConfName::RumbleYtDlpListExtraArgs => ("RUMBLE_YT_DLP_LIST_EXTRA_ARGS"@, "[]"@),
        ConfName::RumbleYtDlpGetUrlExtraArgs => ("RUMBLE_YT_DLP_GET_URL_EXTRA_ARGS"@, "[]"@),
        ConfName::CacheTTL => ("CACHE_TTL"@, "600"@),
        ConfName::FfmpegTimeoutSeconds => ("FFMPEG_TIMEOUT_SECONDS"@, "300"@),
        ConfName::FfmpegAudioFilter => ("FFMPEG_AUDIO_FILTER"@, ""@),
        ConfName::YoutubeApiKey => ("YT_API_KEY"@, ""@),
        ConfName::TwitchClientId => ("TWITCH_CLIENT_ID"@, ""@),
        ConfName::TwitchSecretKey => ("TWITCH_SECRET"@, ""@),
        _ => (""@, ""@),
    }
}

/// Whether a setting is a key to a service, which has no default.
pub open spec fn is_key(key: ConfName) -> bool {
    key is YoutubeApiKey || key is TwitchClientId || key is TwitchSecretKey
}

/// A setting is what its variable holds, as it is, and its default where that is not set
/// or is no text. A key to a service has no default, and the empty text is none.
pub proof fn settings_are_what_variables_hold(
    vars: Vec<EnvVar>,
    conf: EnvConf,
    key: ConfName,
    at: int,
    text: Seq<char>,
)
    requires
        call_ensures(self::conf, (vars,), conf),
        !(key is RedisUrl || key is SubfolderPath || key is AudioCodec),
    ensures
        is_variable(vars@, documented(key).0, at) && vars@[at].value is Text
            && vars@[at].value->Text_0@ == text && (is_key(key) ==> text.len() > 0)
            ==> conf.setting(key) == Ok::<Seq<char>, ConfErrorModel>(text),
        ((forall|i: int|
            0 <= i < vars@.len() ==> (#[trigger] vars@[i]).name@ != documented(key).0) || (
        is_variable(vars@, documented(key).0, at) && vars@[at].value is NotUnicode)) && !is_key(key)
            ==> conf.setting(key) == Ok::<Seq<char>, ConfErrorModel>(documented(key).1),
        is_key(key) && (forall|i: int|
            0 <= i < vars@.len() ==> (#[trigger] vars@[i]).name@ != documented(key).0)
            ==> conf.setting(key) == Err::<Seq<char>, ConfErrorModel>(ConfErrorModel::NotPresent),
        is_key(key) && is_variable(vars@, documented(key).0, at) && vars@[at].value is Text
            && vars@[at].value->Text_0@.len() == 0 ==> conf.setting(key) == Err::<
            Seq<char>,
            ConfErrorModel,
        >(ConfErrorModel::Empty(key)),
        is_key(key) && is_variable(vars@, documented(key).0, at) && vars@[at].value is NotUnicode
            ==> conf.setting(key) == Err::<Seq<char>, ConfErrorModel>(
            ConfErrorModel::NotUnicode(vars@[at].value->NotUnicode_0@),
        ),
{
    lemma_variable(vars, documented(key).0);
}

/// The address of Redis is made of its host and its port, each of which is a setting.
pub proof fn redis_is_where_the_settings_say(conf: &EnvConf)
    ensures
        conf.setting(ConfName::RedisAddress) is Ok,
        conf.setting(ConfName::RedisPort) is Ok,
        conf.setting(ConfName::RedisUrl) == Ok::<Seq<char>, ConfErrorModel>(
            "redis://"@ + conf.setting(ConfName::RedisAddress)->Ok_0 + ":"@ + conf.setting(
                ConfName::RedisPort,
            )->Ok_0 + "/"@,
        ),
{
}

/// Whether a text holds nothing but slashes.
pub open spec fn is_slashes(s: Seq<char>) -> bool {
    forall|i: int| 0 <= i < s.len() ==> (#[trigger] s[i]) == '/'
}

proof fn lemma_end_slashes(kept: Seq<char>, after: Seq<char>)
    requires
        is_slashes(after),
        kept.len() > 0 ==> kept.last() != '/',
    ensures
        without_end_slashes(kept + after) == kept,
    decreases after.len(),
{
    if after.len() == 0 {
        assert(kept + after =~= kept);
    } else {
        assert((kept + after).last() == after[after.len() - 1]);
        assert((kept + after).drop_last() =~= kept + after.drop_last());
        lemma_end_slashes(kept, after.drop_last());
    }
}

/// A subfolder loses the slashes at its end, and no other character; it gets one at its
/// beginning if it has none there. Of slashes alone nothing is left.
pub proof fn only_end_slashes_are_lost(
    path: &str,
    before: Seq<char>,
    core: Seq<char>,
    after: Seq<char>,
    r: String,
)
    requires
        call_ensures(subfolder_path, (path,), r),
        path@ == before + core + after,
        is_slashes(before),
        is_slashes(after),
        core.len() > 0 ==> core[0] != '/' && core.last() != '/',
    ensures
        core.len() == 0 ==> r@.len() == 0,
        core.len() > 0 && before.len() == 0 ==> r@ == seq!['/'] + core,
        core.len() > 0 && before.len() > 0 ==> r@ == before + core,
{
    if core.len() == 0 {
        let all = seq!['/'] + path@;
        assert forall|i: int| 0 <= i < path@.len() implies (#[trigger] path@[i]) == '/' by {
            if i < before.len() {
                assert(path@[i] == before[i]);
            } else {
                assert(path@[i] == after[i - before.len()]);
            }
        }
        assert(is_slashes(all));
        lemma_end_slashes(Seq::empty(), all);
        lemma_end_slashes(Seq::empty(), path@);
        assert(Seq::<char>::empty() + all =~= all);
        assert(Seq::<char>::empty() + path@ =~= path@);
    } else if before.len() == 0 {
        assert(path@[0] == core[0]);
        lemma_end_slashes(seq!['/'] + core, after);
        assert(seq!['/'] + path@ =~= seq!['/'] + core + after);
    } else {
        assert(path@[0] == before[0]);
        lemma_end_slashes(before + core, after);
        assert(path@ =~= before + core + after);
    }
}

/// Streams are transcoded unless the setting says `false`, in letters of either case.
pub proof fn only_false_stops_transcoding<C: Conf>(conf: &C, r: bool)
    requires
        call_ensures(transcoding_enabled::<C>, (conf,), r),
    ensures
        !r <==> (conf.setting(ConfName::TranscodingEnabled) matches Ok(text) && {
            &&& text.len() == 5
            &&& text[0] == 'f' || text[0] == 'F'
            &&& text[1] == 'a' || text[1] == 'A'
            &&& text[2] == 'l' || text[2] == 'L'
            &&& text[3] == 's' || text[3] == 'S'
            &&& text[4] == 'e' || text[4] == 'E'
        }),
{
    reveal_strlit("false");
    if let Ok(text) = conf.setting(ConfName::TranscodingEnabled) {
        crate::text::case_is_that_of_ascii_letters(text, "false"@);
    }
}

/// Whether a setting says `true`, in letters of either case.
pub open spec fn says_true(setting: Result<Seq<char>, ConfErrorModel>) -> bool {
    setting matches Ok(text) && {
        &&& text.len() == 4
        &&& text[0] == 't' || text[0] == 'T'
        &&& text[1] == 'r' || text[1] == 'R'
        &&& text[2] == 'u' || text[2] == 'U'
        &&& text[3] == 'e' || text[3] == 'E'
    }
}

/// Whether a setting is a number in decimal digits.
pub open spec fn writes(setting: Result<Seq<char>, ConfErrorModel>, n: nat) -> bool {
    setting == Ok::<Seq<char>, ConfErrorModel>(crate::numerals::digits_of(n))
}

/// Whether a setting holds no number: it has no value, an empty one, or one that does not
/// end in a digit.
pub open spec fn writes_nothing(setting: Result<Seq<char>, ConfErrorModel>) -> bool {
    setting matches Ok(text) ==> text.len() == 0 || !('0' <= text.last() <= '9')
}

proof fn lemma_number_set(setting: Result<Seq<char>, ConfErrorModel>, n: nat, limit: nat)
    ensures
        writes(setting, n) && n <= limit ==> number_set(setting, limit) == Some(n),
        writes_nothing(setting) ==> number_set(setting, limit) is None,
{
    if n <= limit {
        crate::numerals::written_numbers_are_read_back(n, limit);
    }
    if let Ok(text) = setting {
        crate::numerals::only_digits_make_numbers(text, limit);
    }
}

/// The least length of a YouTube video is the number that is set, or 61 if Shorts are
/// excluded and that number is less. No number counts as none at all.
pub proof fn minimums_are_those_that_are_set<C: Conf>(conf: &C, n: u64, r: u64)
    requires
        call_ensures(youtube_min_seconds::<C>, (conf,), r),
        ({
            let set = conf.setting(ConfName::YoutubeMinSeconds);
            writes(set, n as nat) || (n == 0 && writes_nothing(set))
        }),
    ensures
        r == if says_true(conf.setting(ConfName::YoutubeExcludeShorts)) && n < 61 {
            61
        } else {
            n
        },
{
    lemma_number_set(conf.setting(ConfName::YoutubeMinSeconds), n as nat, u64::MAX as nat);
    reveal_strlit("true");
    if let Ok(text) = conf.setting(ConfName::YoutubeExcludeShorts) {
        crate::text::case_is_that_of_ascii_letters(text, "true"@);
    }
}

/// A setting that is a number is that number: how long a feed is kept, how many videos of
/// a channel are listed, how long they last at least, how many are fetched from a
/// playlist and when a transcoding is given up.
pub proof fn numbers_are_those_that_are_set<C: Conf>(
    conf: &C,
    n: usize,
    ttl: u64,
    most: usize,
    least: u64,
    fetched: Option<usize>,
    timeout: Option<u64>,
)
    requires
        call_ensures(cache_ttl::<C>, (conf,), ttl),
        call_ensures(rumble_max_results::<C>, (conf,), most),
        call_ensures(rumble_min_seconds::<C>, (conf,), least),
        call_ensures(youtube_max_results::<C>, (conf,), fetched),
        call_ensures(ffmpeg_timeout_seconds::<C>, (conf,), timeout),
    ensures
        writes(conf.setting(ConfName::CacheTTL), n as nat) ==> ttl == n,
        writes_nothing(conf.setting(ConfName::CacheTTL)) ==> ttl == 600,
        writes(conf.setting(ConfName::RumbleMaxResults), n as nat) ==> most == n,
        writes_nothing(conf.setting(ConfName::RumbleMaxResults)) ==> most == 300,
        writes(conf.setting(ConfName::RumbleMinSeconds), n as nat) ==> least == n,
        writes_nothing(conf.setting(ConfName::RumbleMinSeconds)) ==> least == 0,
        writes(conf.setting(ConfName::YoutubeMaxResults), n as nat) ==> fetched == Some(n),
        writes_nothing(conf.setting(ConfName::YoutubeMaxResults)) ==> fetched is None,
        writes(conf.setting(ConfName::FfmpegTimeoutSeconds), n as nat) ==> timeout == Some(n as u64),
        writes_nothing(conf.setting(ConfName::FfmpegTimeoutSeconds)) ==> timeout is None,
{
    lemma_number_set(conf.setting(ConfName::CacheTTL), n as nat, u64::MAX as nat);
    lemma_number_set(conf.setting(ConfName::RumbleMaxResults), n as nat, usize::MAX as nat);
    lemma_number_set(conf.setting(ConfName::RumbleMinSeconds), n as nat, u64::MAX as nat);
    lemma_number_set(conf.setting(ConfName::YoutubeMaxResults), n as nat, usize::MAX as nat);
    lemma_number_set(conf.setting(ConfName::FfmpegTimeoutSeconds), n as nat, u64::MAX as nat);
}

/// Every codec has an encoder of its own, and its media type ends in its extension, but
/// for MP3, whose type is that of MPEG audio.
pub proof fn codecs_fit_their_names(
    codec: AudioCodec,
    encoder: &'static str,
    extension: &'static str,
    media: &'static str,
)
    requires
        call_ensures(AudioCodec::get_ffmpeg_codec_str, (&codec,), encoder),
        call_ensures(AudioCodec::get_extension_str, (&codec,), extension),
        call_ensures(AudioCodec::get_mime_type_str, (&codec,), media),
    ensures
        codec is MP3 <==> encoder@ == "libmp3lame"@,
        codec is Opus <==> encoder@ == "libopus"@,
        codec is OGGVorbis <==> encoder@ == "libvorbis"@,
        codec is MP3 ==> extension@ == "mp3"@ && media@ == "audio/mpeg"@,
        !(codec is MP3) ==> extension@ == "webm"@ && media@ == "audio/"@ + extension@,
{
    reveal_strlit("libmp3lame");
    reveal_strlit("libopus");
    reveal_strlit("libvorbis");
    reveal_strlit("audio/");
    reveal_strlit("webm");
    reveal_strlit("audio/webm");
    assert("libmp3lame"@.len() == 10 && "libopus"@.len() == 7 && "libvorbis"@.len() == 9);
    assert("audio/webm"@ =~= "audio/"@ + "webm"@);
}

/// The subfolder and the codec are what is made of their variables, or of the empty text and
/// of MP3 where those are not set.
pub proof fn subfolder_and_codec_are_made_of_variables(
    vars: Vec<EnvVar>,
    conf: EnvConf,
    at: int,
    text: &str,
    folder: String,
    codec: String,
)
    requires
        call_ensures(self::conf, (vars,), conf),
        call_ensures(subfolder_path, (text,), folder),
        call_ensures(normal_codec_name, (text,), codec),
    ensures
        is_variable(vars@, "SUBFOLDER"@, at) && vars@[at].value is Text
            && vars@[at].value->Text_0@ == text@ ==> conf.setting(ConfName::SubfolderPath) == Ok::<
            Seq<char>,
            ConfErrorModel,
        >(folder@),
        is_variable(vars@, "AUDIO_CODEC"@, at) && vars@[at].value is Text
            && vars@[at].value->Text_0@ == text@ ==> conf.setting(ConfName::AudioCodec) == Ok::<
            Seq<char>,
            ConfErrorModel,
        >(codec@),
        (forall|i: int| 0 <= i < vars@.len() ==> (#[trigger] vars@[i]).name@ != "SUBFOLDER"@)
            ==> conf.setting(ConfName::SubfolderPath) == Ok::<Seq<char>, ConfErrorModel>(
            Seq::empty(),
        ),
        (forall|i: int| 0 <= i < vars@.len() ==> (#[trigger] vars@[i]).name@ != "AUDIO_CODEC"@)
            ==> conf.setting(ConfName::AudioCodec) == Ok::<Seq<char>, ConfErrorModel>("MP3"@),
        codec@ == "OPUS"@ <==> text@ == "OPUS"@,
        codec@ == "OGG_VORBIS"@ <==> text@ == "OGG"@ || text@ == "VORBIS"@ || text@
            == "OGG_VORBIS"@,
        codec@ == "OPUS"@ || codec@ == "OGG_VORBIS"@ || codec@ == "MP3"@,
{
    lemma_variable(vars, "SUBFOLDER"@);
    lemma_variable(vars, "AUDIO_CODEC"@);
    reveal_strlit("");
    reveal_strlit("MP3");
    reveal_strlit("OPUS");
    reveal_strlit("OGG");
    reveal_strlit("VORBIS");
    reveal_strlit("OGG_VORBIS");
    assert("MP3"@.len() == 3 && "MP3"@[0] == 'M');
    assert("OPUS"@.len() == 4 && "OPUS"@[0] == 'O');
    assert("OGG"@.len() == 3 && "OGG"@[0] == 'O');
    assert("VORBIS"@.len() == 6);
    assert("OGG_VORBIS"@.len() == 10);
    reveal_with_fuel(without_end_slashes, 2);
    assert(seq!['/'] + ""@ =~= seq!['/']);
    assert(seq!['/'].drop_last() =~= Seq::<char>::empty());
}

/// Why a setting has no value is told in words.
pub proof fn missing_settings_are_told(e: &ConfError, r: String)
    requires
        call_ensures(ConfError::message, (e,), r),
    ensures
        e is NotPresent ==> r@ == "environment variable not found"@,
        e is NotUnicode ==> r@ == "environment variable was not valid unicode: "@
            + e->NotUnicode_0@,
        e is Empty && e->Empty_0 is YoutubeApiKey ==> r@ == "no youtube api key"@,
        e is Empty && e->Empty_0 is TwitchClientId ==> r@ == "no TwitchClientId api key"@,
        e is Empty && e->Empty_0 is TwitchSecretKey ==> r@ == "no TwitchSecretKey api key"@,
{
}

/// A number that does not fit counts as none.
pub proof fn numbers_that_do_not_fit_are_not_set<C: Conf>(
    conf: &C,
    n: nat,
    ttl: u64,
    most: usize,
    least: u64,
    fetched: Option<usize>,
    timeout: Option<u64>,
)
    requires
        n > u64::MAX,
        call_ensures(cache_ttl::<C>, (conf,), ttl),
        call_ensures(rumble_max_results::<C>, (conf,), most),
        call_ensures(rumble_min_seconds::<C>, (conf,), least),
        call_ensures(youtube_max_results::<C>, (conf,), fetched),
        call_ensures(ffmpeg_timeout_seconds::<C>, (conf,), timeout),
    ensures
        writes(conf.setting(ConfName::CacheTTL), n) ==> ttl == 600,
        writes(conf.setting(ConfName::RumbleMaxResults), n) ==> most == 300,
        writes(conf.setting(ConfName::RumbleMinSeconds), n) ==> least == 0,
        writes(conf.setting(ConfName::YoutubeMaxResults), n) ==> fetched is None,
        writes(conf.setting(ConfName::FfmpegTimeoutSeconds), n) ==> timeout is None,
{
    crate::numerals::lemma_digits_read_back(n);
    let digits = crate::numerals::digits_of(n);
    assert(crate::numerals::is_digit(digits[0]));
}

} // verus!
