use vstd::prelude::*;
use vstd::string::StringExecFns;

use crate::types::{
    EmbedRequest, EmbedResponse, EmbeddingData, InputText, OpenAIEmbeddingsRequest,
    OpenAIEmbeddingsResponse, Usage,
};

verus! {

/// Why a request was turned away before reaching the dispatcher.
#[derive(Clone, Copy, Debug, PartialEq, Eq, Structural)]
pub enum RequestRejection {
    /// The request carried no input texts.
    EmptyInput,
    /// The request asked for an encoding other than plain float lists.
    UnsupportedEncodingFormat,
}

/// Validate a direct-format request and hand back what the dispatcher needs:
/// the texts, the normalization flag and the batch size. A request with no
/// texts is rejected; everything else is admitted unchanged.
pub fn admit_embed_request(req: EmbedRequest) -> (r: Result<
    (Vec<String>, bool, u32),
    RequestRejection,
>)
    ensures
        req.texts.texts().len() == 0 <==> r == Err::<(Vec<String>, bool, u32), RequestRejection>(
            RequestRejection::EmptyInput,
        ),
        req.texts.texts().len() > 0 <==> r is Ok,
        r is Ok ==> ({
            &&& r->Ok_0.0.deep_view() == req.texts.texts()
            &&& r->Ok_0.1 == req.normalize_embeddings
            &&& r->Ok_0.2 == req.batch_size
        }),
{
    let texts = req.texts.into_vec();
    if texts.len() == 0 {
        Err(RequestRejection::EmptyInput)
    } else {
        Ok((texts, req.normalize_embeddings, req.batch_size))
    }
}

/// Validate a list-format request and hand back the texts and the caller's
/// model label. A request with no texts is rejected; a request that asks for
/// an encoding format other than the float list is rejected; everything else
/// is admitted unchanged.
pub fn admit_openai_request(req: OpenAIEmbeddingsRequest) -> (r: Result<
    (Vec<String>, Option<String>),
    RequestRejection,
>)
    ensures
        req.input.texts().len() == 0 <==> r == Err::<
            (Vec<String>, Option<String>),
            RequestRejection,
        >(RequestRejection::EmptyInput),
        (req.input.texts().len() > 0 && req.encoding_format is Some && req.encoding_format->0@
            != "float"@) <==> r == Err::<(Vec<String>, Option<String>), RequestRejection>(
            RequestRejection::UnsupportedEncodingFormat,
        ),
        r is Ok <==> (req.input.texts().len() > 0 && (req.encoding_format is None
            || req.encoding_format->0@ == "float"@)),
        r is Ok ==> ({
            &&& r->Ok_0.0.deep_view() == req.input.texts()
            &&& r->Ok_0.1 == req.model
        }),
{
    let texts = req.input.into_vec();
    if texts.len() == 0 {
        return Err(RequestRejection::EmptyInput);
    }
    if let Some(format) = &req.encoding_format {
        let float_word = String::from_str("float");
        if !(*format == float_word) {
            return Err(RequestRejection::UnsupportedEncodingFormat);
        }
    }
    Ok((texts, req.model))
}

fn copy_row(row: &Vec<u32>) -> (r: Vec<u32>)
    ensures
        r@ == row@,
{
    let mut r: Vec<u32> = Vec::new();
    let mut j: usize = 0;
    while j < row.len()
        invariant
            j <= row@.len(),
            r@ == row@.subrange(0, j as int),
        decreases row@.len() - j,
    {
        r.push(row[j]);
        proof {
            assert(row@.subrange(0, j + 1) =~= row@.subrange(0, j as int).push(row@[j as int]));
        }
        j = j + 1;
    }
    proof {
        assert(row@.subrange(0, row@.len() as int) =~= row@);
    }
    r
}

/// Shape a backend result into the list wire format: one entry per vector,
/// in the same order, each entry carrying the index of the text it answers,
/// under the caller's model label, with zero token usage.
pub fn map_openai_response(model: String, embed: EmbedResponse) -> (r: OpenAIEmbeddingsResponse)
    ensures
        r.object@ == "list"@,
        r.model@ == model@,
        r.usage.prompt_tokens == 0,
        r.usage.total_tokens == 0,
        r.data@.len() == embed.vectors@.len(),
        forall|i: int|
            0 <= i < r.data@.len() ==> (#[trigger] r.data@[i]).embedding@ == embed.vectors@[i]@,
        forall|i: int| 0 <= i < r.data@.len() ==> (#[trigger] r.data@[i]).index == i,
        forall|i: int| 0 <= i < r.data@.len() ==> (#[trigger] r.data@[i]).object@ == "embedding"@,
{
    let mut data: Vec<EmbeddingData> = Vec::new();
    let mut k: usize = 0;
    while k < embed.vectors.len()
        invariant
            k <= embed.vectors@.len(),
            data@.len() == k,
            forall|i: int|
                0 <= i < k ==> (#[trigger] data@[i]).embedding@ == embed.vectors@[i]@,
            forall|i: int| 0 <= i < k ==> (#[trigger] data@[i]).index == i,
            forall|i: int| 0 <= i < k ==> (#[trigger] data@[i]).object@ == "embedding"@,
        decreases embed.vectors@.len() - k,
    {
        let embedding = copy_row(&embed.vectors[k]);
        data.push(
            EmbeddingData { object: String::from_str("embedding"), embedding, index: k },
        );
        k = k + 1;
    }
    OpenAIEmbeddingsResponse { object: String::from_str("list"), data, model, usage: Usage::zero() }
}

} // verus!
