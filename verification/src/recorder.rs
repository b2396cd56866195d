//! Choosing the encoder.
use vstd::prelude::*;
use vstd::string::*;

use crate::config::{known_encoder, valid, Config, ConfigView};
use crate::text::same_text;

verus! {

/// The encoder that is used. Unless the settings name another one, that is low-latency x264, and no
/// other is tried. Settings that name `vaapi` outright get the hardware encoder, without a trial and
/// without a way back to x264 where it fails.
pub open spec fn final_encoder(c: ConfigView) -> Seq<char> {
    if c.encoder == "auto"@ {
        "x264"@
    } else {
        c.encoder
    }
}

/// Decides which encoder to record with; see [`final_encoder`].
pub fn choose_encoder(config: &Config) -> (encoder: String)
    ensures
        encoder@ == final_encoder(config@),
{
    if same_text(config.encoder.as_str(), "auto") {
        "x264".to_owned()
    } else {
        config.encoder.clone()
    }
}

/// One of the two encoders is used: x264, unless the settings name the other one.
pub proof fn law_encoder_is_x264_unless_named_otherwise(c: ConfigView)
    requires
        valid(c),
    ensures
        final_encoder(c) == if c.encoder == "vaapi"@ {
            "vaapi"@
        } else {
            "x264"@
        },
{
    assert(known_encoder(c.encoder));
    reveal_strlit("auto");
    reveal_strlit("vaapi");
    assert("auto"@.len() == 4 && "vaapi"@.len() == 5);
}

} // verus!
