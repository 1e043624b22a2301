use vstd::prelude::*;

verus! {

/// One request's input texts: either a single string or a list of strings,
/// matching the two shapes the wire formats allow.
pub enum InputText {
    Single(String),
    Multiple(Vec<String>),
}

impl InputText {
    /// The sequence of texts this value denotes: a single string becomes a
    /// one-element sequence, a list is taken as it stands.
    pub open spec fn texts(self) -> Seq<Seq<char>> {
        match self {
            InputText::Single(s) => seq![s@],
            InputText::Multiple(v) => v.deep_view(),
        }
    }

    pub fn into_vec(self) -> (r: Vec<String>)
        ensures
            r.deep_view() == self.texts(),
    {
        match self {
            InputText::Single(s) => {
                let ghost g: Seq<char> = s@;
                let mut v: Vec<String> = Vec::new();
                v.push(s);
                proof {
                    assert(v.deep_view() =~= seq![g]);
                }
                v
            },
            InputText::Multiple(v) => v,
        }
    }
}

/// Token accounting reported on the list-format response. The gateway does not
/// meter tokens, so both counters are always reported as zero.
pub struct Usage {
    pub prompt_tokens: u32,
    pub total_tokens: u32,
}

impl Usage {
    pub fn zero() -> (r: Usage)
        ensures
            r.prompt_tokens == 0,
            r.total_tokens == 0,
    {
        Usage { prompt_tokens: 0, total_tokens: 0 }
    }
}

/// The direct wire format's request body.
pub struct EmbedRequest {
    pub texts: InputText,
    pub normalize_embeddings: bool,
    pub batch_size: u32,
}

/// A successful embedding result: one vector per input text, in input order.
///
/// Each scalar is carried as the bit pattern of an IEEE 754 single-precision
/// value. The gateway core never does arithmetic on scalars; it only counts,
/// orders and relays them, so it holds them as plain 32-bit words and the
/// numeric boundary converts at the edge.
pub struct EmbedResponse {
    pub vectors: Vec<Vec<u32>>,
    pub count: usize,
    pub vector_dim: usize,
    pub model_path: String,
}

impl EmbedResponse {
    /// Assemble a response from raw vectors: the count is the number of
    /// vectors, and the reported dimensionality is that of the first vector,
    /// or zero when there are none.
    pub fn from_vectors(vectors: Vec<Vec<u32>>, model_path: String) -> (r: EmbedResponse)
        ensures
            r.vectors.deep_view() == vectors.deep_view(),
            r.count == vectors@.len(),
            r.vector_dim == (if vectors@.len() == 0 {
                0int
            } else {
                vectors@[0]@.len() as int
            }),
            r.model_path@ == model_path@,
    {
        let count = vectors.len();
        let vector_dim = if vectors.len() == 0 {
            0
        } else {
            vectors[0].len()
        };
        EmbedResponse { vectors, count, vector_dim, model_path }
    }
}

/// The list-format request body.
pub struct OpenAIEmbeddingsRequest {
    pub input: InputText,
    pub model: Option<String>,
    pub encoding_format: Option<String>,
}

/// One entry of the list-format response: a vector and the index of the input
/// text it belongs to.
pub struct EmbeddingData {
    pub object: String,
    pub embedding: Vec<u32>,
    pub index: usize,
}

/// The list-format response body.
pub struct OpenAIEmbeddingsResponse {
    pub object: String,
    pub data: Vec<EmbeddingData>,
    pub model: String,
    pub usage: Usage,
}

} // verus!
