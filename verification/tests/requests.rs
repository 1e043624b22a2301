use embed_gateway::gateway::{
    admit_embed_request, admit_openai_request, map_openai_response, RequestRejection,
};
use embed_gateway::types::{
    EmbedRequest, EmbedResponse, InputText, OpenAIEmbeddingsRequest,
};

#[test]
fn into_vec_wraps_a_single_text() {
    let one = InputText::Single("hello".to_string());
    assert_eq!(one.into_vec(), vec!["hello".to_string()]);
}

#[test]
fn into_vec_keeps_a_list_as_is() {
    let many = InputText::Multiple(vec!["a".to_string(), "b".to_string()]);
    assert_eq!(many.into_vec(), vec!["a".to_string(), "b".to_string()]);
}

#[test]
fn embed_request_with_texts_is_admitted_unchanged() {
    let req = EmbedRequest {
        texts: InputText::Multiple(vec!["x".to_string(), "y".to_string()]),
        normalize_embeddings: true,
        batch_size: 16,
    };
    let (texts, normalize, batch) = admit_embed_request(req).expect("admitted");
    assert_eq!(texts, vec!["x".to_string(), "y".to_string()]);
    assert!(normalize);
    assert_eq!(batch, 16);
}

#[test]
fn embed_request_without_texts_is_rejected() {
    let req = EmbedRequest {
        texts: InputText::Multiple(Vec::new()),
        normalize_embeddings: false,
        batch_size: 1,
    };
    assert_eq!(admit_embed_request(req), Err(RequestRejection::EmptyInput));
}

#[test]
fn openai_request_with_texts_is_admitted() {
    let req = OpenAIEmbeddingsRequest {
        input: InputText::Single("hello".to_string()),
        model: Some("m".to_string()),
        encoding_format: Some("float".to_string()),
    };
    let (texts, model) = admit_openai_request(req).expect("admitted");
    assert_eq!(texts, vec!["hello".to_string()]);
    assert_eq!(model, Some("m".to_string()));
}

#[test]
fn openai_request_without_texts_is_rejected() {
    let req = OpenAIEmbeddingsRequest {
        input: InputText::Multiple(Vec::new()),
        model: None,
        encoding_format: None,
    };
    assert_eq!(admit_openai_request(req), Err(RequestRejection::EmptyInput));
}

#[test]
fn openai_request_with_other_encoding_is_rejected() {
    let req = OpenAIEmbeddingsRequest {
        input: InputText::Single("hello".to_string()),
        model: None,
        encoding_format: Some("base64".to_string()),
    };
    assert_eq!(
        admit_openai_request(req),
        Err(RequestRejection::UnsupportedEncodingFormat)
    );
}

#[test]
fn response_reports_count_and_first_vector_dim() {
    let vectors = vec![vec![1u32, 2, 3, 4], vec![5, 6, 7, 8]];
    let resp = EmbedResponse::from_vectors(vectors.clone(), "path".to_string());
    assert_eq!(resp.vectors, vectors);
    assert_eq!(resp.count, 2);
    assert_eq!(resp.vector_dim, 4);
    assert_eq!(resp.model_path, "path");
}

#[test]
fn empty_response_reports_zero_dim() {
    let resp = EmbedResponse::from_vectors(Vec::new(), "path".to_string());
    assert_eq!(resp.count, 0);
    assert_eq!(resp.vector_dim, 0);
}

#[test]
fn list_format_keeps_one_vector_per_text_in_order() {
    // One output entry per input vector, entry i carrying vector i.
    let vectors = vec![vec![10u32, 11], vec![20, 21], vec![30, 31]];
    let resp = EmbedResponse::from_vectors(vectors.clone(), "path".to_string());
    let out = map_openai_response("m".to_string(), resp);
    assert_eq!(out.object, "list");
    assert_eq!(out.model, "m");
    assert_eq!(out.usage.prompt_tokens, 0);
    assert_eq!(out.usage.total_tokens, 0);
    assert_eq!(out.data.len(), 3);
    for (i, entry) in out.data.iter().enumerate() {
        assert_eq!(entry.object, "embedding");
        assert_eq!(entry.index, i);
        assert_eq!(entry.embedding, vectors[i]);
    }
}

#[test]
fn scalar_bits_pass_through_unchanged() {
    // A constant four-dimensional vector, carried as single-precision bit
    // patterns: the gateway relays the words untouched, so the numeric value
    // read back at the edge is exactly the one the backend produced.
    let vector = vec![3.0f32.to_bits(), 0.0f32.to_bits(), 0.0f32.to_bits(), 0.0f32.to_bits()];
    let resp = EmbedResponse::from_vectors(vec![vector.clone()], "path".to_string());
    assert_eq!(resp.count, 1);
    assert_eq!(resp.vector_dim, 4);
    let out = map_openai_response("m".to_string(), resp);
    assert_eq!(out.data.len(), 1);
    let read_back: Vec<f32> = out.data[0].embedding.iter().map(|b| f32::from_bits(*b)).collect();
    assert_eq!(read_back, vec![3.0f32, 0.0, 0.0, 0.0]);
}
