//! What the interactive subword profile accepts: a dense recurrent
//! checkpoint whose logits are paged, and a byte-BPE tokenizer of the pinned
//! format whose vocabulary is the checkpoint's.

use vstd::prelude::*;
use vstd::string::StringExecFns;
use crate::state_checkpoint::{LogitPaging, StateHeader};

verus! {

/// The only tokenizer format the profile reads.
pub open spec fn subword_tokenizer_format() -> Seq<char> {
    "gbllm_bpe.v2"@
}

/// Why the interactive subword profile refuses its inputs.
#[derive(Clone, Debug, PartialEq, Eq)]
pub enum SubwordRefusal {
    UnexpectedTokenizerFormat { format: String },
    NotDensePaged,
    VocabMismatch { tokenizer_vocab: usize, checkpoint_vocab: usize },
}

/// Checks the tokenizer file's declared format (empty where absent).
pub fn check_tokenizer_format(format: &String) -> (result: Result<(), SubwordRefusal>)
    ensures
        result == if format@ == subword_tokenizer_format() {
            Ok::<(), SubwordRefusal>(())
        } else {
            Err::<(), SubwordRefusal>(SubwordRefusal::UnexpectedTokenizerFormat { format: *format })
        },
{
    proof {
        reveal_strlit("gbllm_bpe.v2");
    }
    if *format == String::from_str("gbllm_bpe.v2") {
        Ok(())
    } else {
        Err(SubwordRefusal::UnexpectedTokenizerFormat { format: format.clone() })
    }
}

/// Checks that the checkpoint is dense with paged logits, and that the
/// tokenizer's vocabulary is the checkpoint's.
pub fn check_subword_program(header: &StateHeader, tokenizer_vocab: usize) -> (result: Result<(), SubwordRefusal>)
    ensures
        result == if header.is_moe || header.topology.logit_paging != LogitPaging::Paged {
            Err::<(), SubwordRefusal>(SubwordRefusal::NotDensePaged)
        } else if tokenizer_vocab != header.topology.vocab {
            Err::<(), SubwordRefusal>(
                SubwordRefusal::VocabMismatch { tokenizer_vocab, checkpoint_vocab: header.topology.vocab },
            )
        } else {
            Ok::<(), SubwordRefusal>(())
        },
{
    if header.is_moe || header.topology.logit_paging != LogitPaging::Paged {
        return Err(SubwordRefusal::NotDensePaged);
    }
    if tokenizer_vocab != header.topology.vocab {
        return Err(SubwordRefusal::VocabMismatch { tokenizer_vocab, checkpoint_vocab: header.topology.vocab });
    }
    Ok(())
}

} // verus!
