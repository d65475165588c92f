//! Model listing: asks a backend for its catalog and names each entry.

use vstd::prelude::*;
use crate::errors::{ListError, TransportError};
use crate::json::{bytes_of, document_of};
use crate::providers::ollama::{
    has_catalog, spec_catalog_len, spec_read_model, OllamaConfig, OllamaListModelsResponse,
    OllamaModel,
};

verus! {

/// A model that a backend offers, by the identifier to target it with.
#[derive(Clone, Debug, Default, PartialEq, Eq)]
pub struct RemoteModel {
    pub id: String,
}

/// The name of a catalog entry.
pub open spec fn named(entry: Option<OllamaModel>) -> Option<String> {
    match entry {
        Some(model) => Some(model.name),
        None => None,
    }
}

/// Whether `models` lists the catalog that a payload holds: one model for
/// each entry, in the catalog's order, identified by the entry's name.
pub open spec fn lists(document: Seq<u8>, models: Seq<RemoteModel>) -> bool {
    &&& spec_catalog_len(document) == Some(models.len())
    &&& forall|i: int|
        0 <= i < models.len() ==> Some((#[trigger] models[i]).id) == named(
            spec_read_model(document, i),
        )
}

/// A catalog request that is ready to be sent, with the backend it goes to.
#[derive(Clone, Debug, PartialEq, Eq)]
pub enum ListModelsRequestExecutor {
    OllamaListModelsRequestExecutor(OllamaConfig),
}

impl ListModelsRequestExecutor {
    /// The address that the request goes to.
    pub open spec fn spec_endpoint(self) -> Seq<char> {
        match self {
            ListModelsRequestExecutor::OllamaListModelsRequestExecutor(config) => config.spec_tags_url(),
        }
    }

    /// The catalog request for a local chat backend.
    pub fn ollama(config: &OllamaConfig) -> (executor: Self)
        ensures
            executor matches ListModelsRequestExecutor::OllamaListModelsRequestExecutor(target)
                && target.api_base@ == config.api_base@,
    {
        ListModelsRequestExecutor::OllamaListModelsRequestExecutor(
            OllamaConfig { api_base: config.api_base.clone() },
        )
    }

    /// The address to get the catalog from.
    pub fn endpoint(&self) -> (url: String)
        ensures
            url@ == self.spec_endpoint(),
    {
        match self {
            ListModelsRequestExecutor::OllamaListModelsRequestExecutor(config) => config.tags_url(),
        }
    }

    /// The list of models of a catalog that was read already: one for each
    /// entry, in the catalog's order, identified by the entry's name.
    pub fn list(catalog: OllamaListModelsResponse) -> (models: Vec<RemoteModel>)
        ensures
            models@.len() == catalog.models@.len(),
            forall|i: int|
                0 <= i < models@.len() ==> (#[trigger] models@[i]).id == catalog.models@[i].name,
    {
        let mut models: Vec<RemoteModel> = Vec::new();
        let mut i: usize = 0;
        while i < catalog.models.len()
            invariant
                i <= catalog.models.len(),
                models@.len() == i,
                forall|j: int|
                    0 <= j < i ==> (#[trigger] models@[j]).id == catalog.models@[j].name,
            decreases catalog.models.len() - i,
        {
            models.push(RemoteModel { id: catalog.models[i].name.clone() });
            i += 1;
        }
        models
    }

    /// Turns the outcome of the exchange into the list of models: `outcome`
    /// is the body of the response, or the failure of the exchange.
    ///
    /// A failed exchange surfaces as it is. A body that holds no catalog, or
    /// an entry that cannot be read, is a malformed catalog. Otherwise
    /// there is one model for each entry, in the catalog's order, identified
    /// by the entry's name.
    pub fn execute(&self, outcome: Result<String, TransportError>) -> (listed: Result<
        Vec<RemoteModel>,
        ListError,
    >)
        ensures
            match outcome {
                Err(failure) => listed == Err::<Vec<RemoteModel>, ListError>(
                    ListError::Transport(failure),
                ),
                Ok(body) => if has_catalog(bytes_of(body@)) {
                    listed matches Ok(models) && lists(bytes_of(body@), models@)
                } else {
                    listed == Err::<Vec<RemoteModel>, ListError>(ListError::MalformedCatalog)
                },
            },
    {
        let body = match outcome {
            Ok(body) => body,
            Err(failure) => {
                return Err(ListError::Transport(failure));
            },
        };
        match OllamaListModelsResponse::read(document_of(body.as_str())) {
            Some(catalog) => {
                let models = Self::list(catalog);
                assert forall|i: int| 0 <= i < models@.len() implies Some(
                    (#[trigger] models@[i]).id,
                ) == named(spec_read_model(bytes_of(body@), i)) by {
                    assert(spec_read_model(bytes_of(body@), i) == Some(catalog.models@[i]));
                }
                Ok(models)
            },
            None => Err(ListError::MalformedCatalog),
        }
    }
}

} // verus!
