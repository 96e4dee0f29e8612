//! The static assets served under a fixed set of file names.
use vstd::prelude::*;
use crate::text::str_eq;

verus! {

/// A static asset of the web interface.
#[derive(Clone, Copy, Debug, PartialEq, Eq, Structural)]
pub enum StaticAsset {
    MailGithubPng,
    LogoGrayPng,
    ErrorXSvg,
    BootstrapCss,
    BootstrapNativeJs,
    Md5Js,
    IdenticonJs,
}

/// The media type an asset is served with.
#[derive(Clone, Copy, Debug, PartialEq, Eq, Structural)]
pub enum AssetKind {
    Png,
    Svg,
    Css,
    JavaScript,
}

/// A file name that names no asset.
#[derive(Clone, Copy, Debug, PartialEq, Eq, Structural)]
pub enum AssetError {
    NotFound,
}

pub open spec fn asset_named(name: Seq<char>) -> Option<StaticAsset> {
    if name == "mail-github.png"@ {
        Some(StaticAsset::MailGithubPng)
    } else if name == "logo-gray.png"@ {
        Some(StaticAsset::LogoGrayPng)
    } else if name == "error-x.svg"@ {
        Some(StaticAsset::ErrorXSvg)
    } else if name == "bootstrap.css"@ {
        Some(StaticAsset::BootstrapCss)
    } else if name == "bootstrap-native-v4.js"@ {
        Some(StaticAsset::BootstrapNativeJs)
    } else if name == "md5.js"@ {
        Some(StaticAsset::Md5Js)
    } else if name == "identicon.js"@ {
        Some(StaticAsset::IdenticonJs)
    } else {
        None
    }
}

/// The asset served under `filename`, or `NotFound`.
pub fn static_asset(filename: &str) -> (r: Result<StaticAsset, AssetError>)
    ensures
        asset_named(filename@) matches Some(a) ==> r == Ok::<StaticAsset, AssetError>(a),
        asset_named(filename@) is None ==> r == Err::<StaticAsset, AssetError>(
            AssetError::NotFound,
        ),
{
    if str_eq(filename, "mail-github.png") {
        Ok(StaticAsset::MailGithubPng)
    } else if str_eq(filename, "logo-gray.png") {
        Ok(StaticAsset::LogoGrayPng)
    } else if str_eq(filename, "error-x.svg") {
        Ok(StaticAsset::ErrorXSvg)
    } else if str_eq(filename, "bootstrap.css") {
        Ok(StaticAsset::BootstrapCss)
    } else if str_eq(filename, "bootstrap-native-v4.js") {
        Ok(StaticAsset::BootstrapNativeJs)
    } else if str_eq(filename, "md5.js") {
        Ok(StaticAsset::Md5Js)
    } else if str_eq(filename, "identicon.js") {
        Ok(StaticAsset::IdenticonJs)
    } else {
        Err(AssetError::NotFound)
    }
}

impl StaticAsset {
    pub open spec fn kind_spec(self) -> AssetKind {
        match self {
            StaticAsset::MailGithubPng | StaticAsset::LogoGrayPng => AssetKind::Png,
            StaticAsset::ErrorXSvg => AssetKind::Svg,
            StaticAsset::BootstrapCss => AssetKind::Css,
            _ => AssetKind::JavaScript,
        }
    }

    /// The media type of the asset.
    pub fn kind(&self) -> (r: AssetKind)
        ensures
            r == self.kind_spec(),
    {
        match self {
            StaticAsset::MailGithubPng | StaticAsset::LogoGrayPng => AssetKind::Png,
            StaticAsset::ErrorXSvg => AssetKind::Svg,
            StaticAsset::BootstrapCss => AssetKind::Css,
            _ => AssetKind::JavaScript,
        }
    }
}

} // verus!
