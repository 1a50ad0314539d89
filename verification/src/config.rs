//! The server's settings.

use crate::paths::MediaPath;
use crate::text;
use vstd::prelude::*;
use vstd::utf8;

verus! {

/// The server's settings.
#[derive(Debug, Clone)]
pub struct Config {
    /// The directory that holds the videos.
    pub media_path: MediaPath,
    /// The port that the server listens on.
    pub port: u16,
    /// Base URL for video streaming (used in stream URLs returned to Stremio).
    /// Defaults to http://localhost:{port} if not set.
    pub base_url: Option<String>,
    /// Public URL for advertising the manifest install URL, in place of `base_url`: for a
    /// server that is reached publicly but streams video over another, local URL.
    pub public_url: Option<String>,
    pub tmdb_api_key: String,
    pub tmdb_base_url: String,
    pub tmdb_image_base_url: String,
    /// Optional password for protecting Stremio routes. When set, all of them are prefixed with
    /// a token derived from it.
    pub password: Option<String>,
    /// The token derived from the password. It is never read from the environment.
    pub auth_token: Option<String>,
}

/// The settings as the environment gives them: those that have a default may be missing.
#[derive(Debug)]
pub struct EnvSettings {
    pub media_path: Option<MediaPath>,
    pub port: Option<u16>,
    pub base_url: Option<String>,
    pub public_url: Option<String>,
    pub tmdb_api_key: String,
    pub tmdb_base_url: Option<String>,
    pub tmdb_image_base_url: Option<String>,
    pub password: Option<String>,
}

/// Whether a token is let in: the configured one, or any where none is configured.
pub open spec fn token_accepted(auth_token: Option<String>, token: Seq<char>) -> bool {
    match auth_token {
        Some(expected) => token == expected@,
        None => true,
    }
}

/// The configured token is let in, and no other; where none is configured, any is.
pub proof fn law_tokens(auth_token: Option<String>, a: Seq<char>, b: Seq<char>)
    ensures
        match auth_token {
            Some(expected) => {
                &&& token_accepted(auth_token, expected@)
                &&& token_accepted(auth_token, a) && token_accepted(auth_token, b) ==> a == b
            },
            None => token_accepted(auth_token, a),
        },
{
}

pub fn default_media_path() -> (res: MediaPath)
    ensures
        res@ == utf8::encode_utf8("/media"@),
        res.lossy() == "/media"@,
{
    MediaPath::from_text("/media")
}

pub fn default_port() -> (res: u16)
    ensures
        res == 8078,
{
    8078
}

pub fn default_tmdb_base_url() -> (res: String)
    ensures
        res@ == "https://api.themoviedb.org/3"@,
{
    "https://api.themoviedb.org/3".to_owned()
}

pub fn default_tmdb_image_base_url() -> (res: String)
    ensures
        res@ == "https://image.tmdb.org/t/p/w500"@,
{
    "https://image.tmdb.org/t/p/w500".to_owned()
}

impl Config {
    /// The settings that the environment asks for: what it leaves out takes its default, and a
    /// password is turned into a token by `compute_token`.
    pub fn from_env<F: Fn(&str) -> String>(env: EnvSettings, compute_token: F) -> (res: Self)
        requires
            forall|password: &str| call_requires(compute_token, (password,)),
        ensures
            match env.media_path {
                Some(path) => res.media_path == path,
                None => res.media_path@ == utf8::encode_utf8("/media"@),
            },
            res.port == (match env.port {
                Some(port) => port,
                None => 8078,
            }),
            res.base_url == env.base_url,
            res.public_url == env.public_url,
            res.tmdb_api_key == env.tmdb_api_key,
            res.tmdb_base_url@ == (match env.tmdb_base_url {
                Some(url) => url@,
                None => "https://api.themoviedb.org/3"@,
            }),
            res.tmdb_image_base_url@ == (match env.tmdb_image_base_url {
                Some(url) => url@,
                None => "https://image.tmdb.org/t/p/w500"@,
            }),
            res.password == env.password,
            match (env.password, res.auth_token) {
                (Some(password), Some(token)) => exists|p: &str|
                    p@ == password@ && call_ensures(compute_token, (p,), token),
                (None, None) => true,
                _ => false,
            },
    {
        let auth_token = match &env.password {
            Some(password) => {
                let p = password.as_str();
                let token = compute_token(p);
                assert(p@ == password@ && call_ensures(compute_token, (p,), token));
                Some(token)
            },
            None => None,
        };
        Config {
            media_path: match env.media_path {
                Some(path) => path,
                None => default_media_path(),
            },
            port: match env.port {
                Some(port) => port,
                None => default_port(),
            },
            base_url: env.base_url,
            public_url: env.public_url,
            tmdb_api_key: env.tmdb_api_key,
            tmdb_base_url: match env.tmdb_base_url {
                Some(url) => url,
                None => default_tmdb_base_url(),
            },
            tmdb_image_base_url: match env.tmdb_image_base_url {
                Some(url) => url,
                None => default_tmdb_image_base_url(),
            },
            password: env.password,
            auth_token,
        }
    }

    /// Returns true if the given token matches the configured auth token,
    /// or if no password is configured.
    pub fn is_valid_token(&self, token: &str) -> (res: bool)
        ensures
            res == token_accepted(self.auth_token, token@),
            self.auth_token matches Some(expected) ==> res == (token@ == expected@),
            self.auth_token is None ==> res,
    {
        match &self.auth_token {
            Some(expected) => text::same_text(token, expected.as_str()),
            None => true,
        }
    }
}

} // verus!
