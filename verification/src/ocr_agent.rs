//! Text extraction from images with tesseract, run through the outbox.

use vstd::prelude::*;
use crate::outbox::{enqueue_command, queued, EffectOutbox};
use crate::text::push_str;

verus! {

/// The tesseract command for an image and a language; a failure prints `OCR_FAILED`.
pub open spec fn ocr_command(image_path: Seq<char>, lang: Seq<char>) -> Seq<char> {
    "tesseract '"@ + image_path + "' stdout -l "@ + lang + " 2>/dev/null || echo 'OCR_FAILED'"@
}

pub struct OCRAgent;

impl OCRAgent {
    /// Queues the extraction of the text of `image_path` in language `lang`.
    pub fn extract_text(image_path: &str, lang: &str, outbox: &mut EffectOutbox)
        ensures
            queued(old(outbox)@, final(outbox)@, ocr_command(image_path@, lang@)),
    {
        let mut cmd = String::new();
        push_str(&mut cmd, "tesseract '");
        push_str(&mut cmd, image_path);
        push_str(&mut cmd, "' stdout -l ");
        push_str(&mut cmd, lang);
        push_str(&mut cmd, " 2>/dev/null || echo 'OCR_FAILED'");
        assert(cmd@ =~= ocr_command(image_path@, lang@));
        enqueue_command(outbox, cmd);
    }
}

} // verus!
