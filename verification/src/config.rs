//! Service configuration as an explicitly constructed value, handed to the
//! components that need it at startup. The surrounding process reads the
//! raw values from its environment and builds a `Settings` through `get`.

use vstd::prelude::*;

verus! {

/// Configuration of the enclosing service: database location, token-signing
/// secret, listen port, and the credentials of the image-hosting account.
pub struct Settings {
    pub database_url: String,
    pub jwt_secret: String,
    pub port: String,
    pub cloudinary_cloud_name: String,
    pub cloudinary_api_key: String,
    pub cloudinary_api_secret: String,
    pub cloudinary_upload_preset: String,
}

/// Assemble a `Settings` from its raw values; every field holds exactly the
/// value passed for it.
pub fn get(
    database_url: String,
    jwt_secret: String,
    port: String,
    cloudinary_cloud_name: String,
    cloudinary_api_key: String,
    cloudinary_api_secret: String,
    cloudinary_upload_preset: String,
) -> (s: Settings)
    ensures
        s.database_url@ == database_url@,
        s.jwt_secret@ == jwt_secret@,
        s.port@ == port@,
        s.cloudinary_cloud_name@ == cloudinary_cloud_name@,
        s.cloudinary_api_key@ == cloudinary_api_key@,
        s.cloudinary_api_secret@ == cloudinary_api_secret@,
        s.cloudinary_upload_preset@ == cloudinary_upload_preset@,
{
    Settings {
        database_url,
        jwt_secret,
        port,
        cloudinary_cloud_name,
        cloudinary_api_key,
        cloudinary_api_secret,
        cloudinary_upload_preset,
    }
}

} // verus!
