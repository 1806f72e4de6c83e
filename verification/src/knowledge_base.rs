//! The knowledge store: named knowledge bases, their uploaded files with
//! blob content, and one vector table per knowledge base holding embedding
//! records for nearest-neighbor retrieval.
use vstd::prelude::*;

use crate::error::CoreError;
use crate::model::ModelId;
use crate::openai;
use crate::openai::{spec_message_text, ChatMessage, ChatMessages, UserContent};
use crate::util::{spec_digits, u64_to_string};
use vstd::utf8::{decode_utf8, valid_utf8};

verus! {

/// Dimension every stored embedding vector must have.
pub const EMBEDDING_DIM: usize = 1024;

/// Largest magnitude a vector coordinate may carry, so squared distances
/// cannot overflow.
pub const MAX_COORD_ABS: i64 = 1048576;

/// The embedding capability: texts in, one fixed-point vector per text out.
pub trait EmbeddingModel {
    fn embedding_batch(&mut self, prompts: &Vec<String>) -> Result<Vec<Vec<i64>>, CoreError>;
}

/// One knowledge base row.
pub struct KnowledgeBase {
    pub id: i64,
    pub name: String,
    pub created_at: i64,
    pub updated_at: i64,
}

/// One stored file row; its content lives in a blob beside it.
pub struct File {
    pub id: i64,
    pub kb_id: i64,
    pub filename: String,
    pub bytes: i64,
    pub purpose: String,
    pub created_at: i64,
    pub updated_at: i64,
}

/// The stored content of one uploaded file.
pub struct FileBlob {
    pub kb_id: i64,
    pub filename: String,
    pub content: Vec<u8>,
}

/// One embedding row of a vector table.
pub struct EmbeddingRecord {
    pub id: String,
    pub kb_id: i64,
    pub file_id: i64,
    pub filename: String,
    pub text: String,
    pub vector: Vec<i64>,
}

/// The vector table of one knowledge base.
pub struct VectorTable {
    pub name: String,
    pub kb_id: i64,
    pub records: Vec<EmbeddingRecord>,
}

/// Request to create a knowledge base.
pub struct CreateKnowledgeBaseRequest {
    pub name: String,
}

/// Acknowledgement of a created knowledge base.
pub struct CreateKnowledgeBaseResponse {
    pub id: i64,
    pub name: String,
    pub existed: bool,
}

/// The list of knowledge bases.
pub struct ListKnowledgeBaseResponse {
    pub data: Vec<KnowledgeBase>,
}

/// Acknowledgement of a deleted knowledge base.
pub struct DeleteKnowledgeBaseResponse {
    pub name: String,
}

/// One embedding row as listed by the service. Vector entries are
/// fixed-point values in millionths.
pub struct Embedding {
    pub id: String,
    pub kb_id: i64,
    pub file_id: i64,
    pub filename: String,
    pub object: String,
    pub text: String,
    pub embedding: Vec<i64>,
    pub index: usize,
}

/// Token counts reported with an embedding listing.
pub struct EmbeddingsUsage {
    pub prompt_tokens: usize,
    pub total_tokens: usize,
}

/// The embedding rows of one knowledge base.
pub struct EmbeddingResponse {
    pub object: String,
    pub embeddings: Vec<Embedding>,
    pub model: String,
    pub usage: EmbeddingsUsage,
}

/// The rows of knowledge base `kb_id` among a file listing.
pub open spec fn spec_file_pred(kb_id: i64) -> spec_fn(File) -> bool {
    |f: File| f.kb_id == kb_id
}

/// The blob stores the content of the file `filename` of knowledge base
/// `kb_id`.
pub open spec fn spec_blob_matches(b: FileBlob, kb_id: i64, filename: Seq<char>) -> bool {
    b.kb_id == kb_id && b.filename@ == filename
}

/// The deterministic name of a knowledge base's vector table.
pub open spec fn spec_kb_table_name(id: i64) -> Seq<char>
    recommends
        id >= 0,
{
    "kb_"@ + spec_digits(id as nat)
}

/// Renders the table name `kb_<id>` of a knowledge base.
pub fn kb_table_name(id: i64) -> (r: String)
    requires
        id >= 0,
    ensures
        r@ == spec_kb_table_name(id),
{
    let mut s = String::from_str("kb_");
    s.append(u64_to_string(id as u64).as_str());
    s
}

/// A vector fit for storage: exactly the fixed dimension, every coordinate
/// bounded.
pub open spec fn spec_valid_vector(v: Seq<i64>) -> bool {
    &&& v.len() == EMBEDDING_DIM
    &&& forall|i: int| 0 <= i < v.len() ==> -MAX_COORD_ABS <= #[trigger] v[i] <= MAX_COORD_ABS
}

/// A record fit for the table of knowledge base `kb_id`.
pub open spec fn spec_valid_record(r: EmbeddingRecord, kb_id: i64) -> bool {
    r.kb_id == kb_id && spec_valid_vector(r.vector@)
}

/// A well-formed vector table: named after its knowledge base, every record
/// scoped to it and carrying a valid vector.
pub open spec fn spec_table_wf(t: VectorTable) -> bool {
    &&& 1 <= t.kb_id
    &&& t.name@ == spec_kb_table_name(t.kb_id)
    &&& forall|i: int| 0 <= i < t.records@.len() ==> spec_valid_record(#[trigger] t.records@[i], t.kb_id)
}

/// The in-memory knowledge store: metadata rows, blobs, and vector tables.
pub struct KnowledgeStore {
    pub kbs: Vec<KnowledgeBase>,
    pub files: Vec<File>,
    pub blobs: Vec<FileBlob>,
    pub tables: Vec<VectorTable>,
    pub next_kb_id: i64,
    pub next_file_id: i64,
}

impl KnowledgeStore {
    /// Store invariant: ids are positive, fresh ids exceed every stored id,
    /// ids are unique, and each table is well-formed and unique per
    /// knowledge base.
    pub open spec fn wf(&self) -> bool {
        &&& 1 <= self.next_kb_id
        &&& 1 <= self.next_file_id
        &&& forall|i: int|
            0 <= i < self.kbs@.len() ==> 1 <= (#[trigger] self.kbs@[i]).id < self.next_kb_id
        &&& forall|i: int, j: int|
            0 <= i < j < self.kbs@.len() ==> (#[trigger] self.kbs@[i]).id != (
            #[trigger] self.kbs@[j]).id
        &&& forall|i: int|
            0 <= i < self.files@.len() ==> 1 <= (#[trigger] self.files@[i]).id < self.next_file_id
        &&& forall|i: int, j: int|
            0 <= i < j < self.files@.len() ==> (#[trigger] self.files@[i]).id != (
            #[trigger] self.files@[j]).id
        &&& forall|i: int|
            0 <= i < self.tables@.len() ==> spec_table_wf(#[trigger] self.tables@[i])
            && self.tables@[i].kb_id < self.next_kb_id
        &&& forall|i: int, j: int|
            0 <= i < j < self.tables@.len() ==> (#[trigger] self.tables@[i]).kb_id != (
            #[trigger] self.tables@[j]).kb_id
    }

    /// A knowledge base with this id exists.
    pub open spec fn spec_has_kb(&self, id: i64) -> bool {
        exists|i: int| 0 <= i < self.kbs@.len() && (#[trigger] self.kbs@[i]).id == id
    }

    /// A vector table for this knowledge base exists.
    pub open spec fn spec_has_table(&self, kb_id: i64) -> bool {
        exists|i: int| 0 <= i < self.tables@.len() && (#[trigger] self.tables@[i]).kb_id == kb_id
    }

    /// A file with this id exists under this knowledge base.
    pub open spec fn spec_has_file(&self, id: i64, kb_id: i64) -> bool {
        exists|i: int|
            0 <= i < self.files@.len() && (#[trigger] self.files@[i]).id == id
                && self.files@[i].kb_id == kb_id
    }

    /// The records of the table of `kb_id`; meaningful when the table
    /// exists.
    pub open spec fn spec_table_records(&self, kb_id: i64) -> Seq<EmbeddingRecord> {
        let i = choose|i: int|
            0 <= i < self.tables@.len() && (#[trigger] self.tables@[i]).kb_id == kb_id;
        self.tables@[i].records@
    }

    /// An empty store.
    pub fn new() -> (r: KnowledgeStore)
        ensures
            r.wf(),
            r.kbs@.len() == 0,
            r.files@.len() == 0,
            r.blobs@.len() == 0,
            r.tables@.len() == 0,
            r.next_kb_id == 1,
            r.next_file_id == 1,
    {
        KnowledgeStore {
            kbs: Vec::new(),
            files: Vec::new(),
            blobs: Vec::new(),
            tables: Vec::new(),
            next_kb_id: 1,
            next_file_id: 1,
        }
    }

    fn find_kb_index(&self, id: i64) -> (r: Option<usize>)
        ensures
            r matches Some(i) ==> i < self.kbs@.len() && self.kbs@[i as int].id == id,
            r is None ==> !self.spec_has_kb(id),
    {
        let n = self.kbs.len();
        let mut i: usize = 0;
        while i < n
            invariant
                0 <= i <= n,
                n == self.kbs@.len(),
                forall|j: int| 0 <= j < i ==> (#[trigger] self.kbs@[j]).id != id,
            decreases n - i,
        {
            if self.kbs[i].id == id {
                return Some(i);
            }
            i += 1;
        }
        None
    }

    fn find_table_index(&self, kb_id: i64) -> (r: Option<usize>)
        ensures
            r matches Some(i) ==> i < self.tables@.len() && self.tables@[i as int].kb_id == kb_id,
            r is None ==> !self.spec_has_table(kb_id),
    {
        let n = self.tables.len();
        let mut i: usize = 0;
        while i < n
            invariant
                0 <= i <= n,
                n == self.tables@.len(),
                forall|j: int| 0 <= j < i ==> (#[trigger] self.tables@[j]).kb_id != kb_id,
            decreases n - i,
        {
            if self.tables[i].kb_id == kb_id {
                return Some(i);
            }
            i += 1;
        }
        None
    }

    fn find_file_index(&self, id: i64, kb_id: i64) -> (r: Option<usize>)
        ensures
            r matches Some(i) ==> i < self.files@.len() && self.files@[i as int].id == id
                && self.files@[i as int].kb_id == kb_id,
            r is None ==> !self.spec_has_file(id, kb_id),
    {
        let n = self.files.len();
        let mut i: usize = 0;
        while i < n
            invariant
                0 <= i <= n,
                n == self.files@.len(),
                forall|j: int|
                    0 <= j < i ==> !((#[trigger] self.files@[j]).id == id && self.files@[j].kb_id
                        == kb_id),
            decreases n - i,
        {
            if self.files[i].id == id && self.files[i].kb_id == kb_id {
                return Some(i);
            }
            i += 1;
        }
        None
    }

    fn find_blob_index(&self, kb_id: i64, filename: &String) -> (r: Option<usize>)
        ensures
            r matches Some(i) ==> i < self.blobs@.len() && spec_blob_matches(
                self.blobs@[i as int],
                kb_id,
                filename@,
            ) && (forall|j: int|
                0 <= j < i ==> !spec_blob_matches(#[trigger] self.blobs@[j], kb_id, filename@)),
            r is None ==> forall|j: int|
                0 <= j < self.blobs@.len() ==> !spec_blob_matches(
                    #[trigger] self.blobs@[j],
                    kb_id,
                    filename@,
                ),
    {
        let n = self.blobs.len();
        let mut i: usize = 0;
        while i < n
            invariant
                0 <= i <= n,
                n == self.blobs@.len(),
                forall|j: int|
                    0 <= j < i ==> !spec_blob_matches(#[trigger] self.blobs@[j], kb_id, filename@),
            decreases n - i,
        {
            if self.blobs[i].kb_id == kb_id && self.blobs[i].filename.eq(filename) {
                return Some(i);
            }
            i += 1;
        }
        None
    }

    /// Creates a knowledge base: a fresh row under a fresh id, and its empty
    /// vector table. Fails only when the id space is exhausted.
    pub fn create_knowledge_base(&mut self, name: String, now: i64) -> (r: Result<
        CreateKnowledgeBaseResponse,
        CoreError,
    >)
        requires
            old(self).wf(),
        ensures
            final(self).wf(),
            r is Ok <==> old(self).next_kb_id != i64::MAX,
            r is Err ==> *final(self) == *old(self),
            r matches Ok(resp) ==> {
                &&& resp.id == old(self).next_kb_id
                &&& resp.name@ == name@
                &&& !resp.existed
                &&& final(self).kbs@.len() == old(self).kbs@.len() + 1
                &&& final(self).kbs@.last().id == resp.id
                &&& final(self).kbs@.last().name@ == name@
                &&& final(self).kbs@.last().created_at == now
                &&& final(self).kbs@.last().updated_at == now
                &&& final(self).kbs@.subrange(0, old(self).kbs@.len() as int) == old(self).kbs@
                &&& final(self).spec_has_kb(resp.id)
                &&& final(self).spec_has_table(resp.id)
                &&& final(self).spec_table_records(resp.id) == Seq::<EmbeddingRecord>::empty()
                &&& final(self).files@ == old(self).files@
                &&& final(self).blobs@ == old(self).blobs@
            },
    {
        if self.next_kb_id == i64::MAX {
            return Err(CoreError::Store(String::from_str("knowledge base ids exhausted")));
        }
        let id = self.next_kb_id;
        let row = KnowledgeBase { id, name: name.clone(), created_at: now, updated_at: now };
        self.kbs.push(row);
        self.next_kb_id = id + 1;
        let has_table = match self.find_table_index(id) {
            Some(_) => true,
            None => false,
        };
        if !has_table {
            let table = VectorTable { name: kb_table_name(id), kb_id: id, records: Vec::new() };
            self.tables.push(table);
        }
        proof {
            let n = self.tables@.len() as int;
            assert(self.tables@[n - 1].kb_id == id);
            assert(self.spec_has_table(id));
            let k = choose|i: int|
                0 <= i < self.tables@.len() && (#[trigger] self.tables@[i]).kb_id == id;
            if k != n - 1 {
                assert(self.tables@[k].kb_id != self.tables@[n - 1].kb_id);
            }
            assert(self.spec_table_records(id) =~= Seq::<EmbeddingRecord>::empty());
            assert(self.kbs@.subrange(0, old(self).kbs@.len() as int) =~= old(self).kbs@);
            assert(self.kbs@.last().name@ == name@);
        }
        Ok(CreateKnowledgeBaseResponse { id, name, existed: false })
    }

    /// Lists every knowledge base, in creation order.
    pub fn list_knowledge_bases(&self) -> (r: ListKnowledgeBaseResponse)
        ensures
            r.data@.len() == self.kbs@.len(),
            forall|i: int| 0 <= i < self.kbs@.len() ==> #[trigger] r.data@[i] == self.kbs@[i],
    {
        let n = self.kbs.len();
        let mut data: Vec<KnowledgeBase> = Vec::new();
        let mut i: usize = 0;
        while i < n
            invariant
                0 <= i <= n,
                n == self.kbs@.len(),
                data@.len() == i,
                forall|j: int| 0 <= j < i ==> #[trigger] data@[j] == self.kbs@[j],
            decreases n - i,
        {
            let k = &self.kbs[i];
            let copy = KnowledgeBase {
                id: k.id,
                name: k.name.clone(),
                created_at: k.created_at,
                updated_at: k.updated_at,
            };
            proof {
                assert(copy == self.kbs@[i as int]);
            }
            data.push(copy);
            i += 1;
        }
        ListKnowledgeBaseResponse { data }
    }

    /// Deletes a knowledge base: fails when the id is unknown; drops the
    /// vector table when one exists (a missing table is no error), then
    /// removes the row.
    pub fn delete_knowledge_base(&mut self, kb_id: i64) -> (r: Result<
        DeleteKnowledgeBaseResponse,
        CoreError,
    >)
        requires
            old(self).wf(),
        ensures
            final(self).wf(),
            r is Ok <==> old(self).spec_has_kb(kb_id),
            r is Err ==> *final(self) == *old(self),
            r matches Ok(resp) ==> {
                &&& !final(self).spec_has_kb(kb_id)
                &&& !final(self).spec_has_table(kb_id)
                &&& final(self).kbs@.len() == old(self).kbs@.len() - 1
                &&& forall|id: i64|
                    id != kb_id ==> (final(self).spec_has_kb(id) <==> old(self).spec_has_kb(id))
                &&& forall|id: i64|
                    id != kb_id ==> (final(self).spec_has_table(id) <==> old(self).spec_has_table(
                        id,
                    ))
                &&& !old(self).spec_has_table(kb_id) ==> final(self).tables@ == old(self).tables@
                &&& final(self).files@ == old(self).files@
                &&& final(self).blobs@ == old(self).blobs@
                &&& exists|i: int|
                    0 <= i < old(self).kbs@.len() && (#[trigger] old(self).kbs@[i]).id == kb_id
                        && resp.name@ == old(self).kbs@[i].name@
            },
    {
        let kb_index = match self.find_kb_index(kb_id) {
            Some(i) => i,
            None => {
                return Err(CoreError::NotFound(String::from_str("knowledge base not found")));
            },
        };
        let name = self.kbs[kb_index].name.clone();
        let ghost tables0 = self.tables@;
        match self.find_table_index(kb_id) {
            Some(t) => {
                self.tables.remove(t);
                proof {
                    assert(self.tables@ == tables0.remove(t as int));
                    assert forall|id: i64| id != kb_id implies (self.spec_has_table(id) <==> old(
                        self,
                    ).spec_has_table(id)) by {
                        lemma_remove_preserves_others_table(tables0, t as int, id);
                        if old(self).spec_has_table(id) {
                            let i = choose|i: int|
                                0 <= i < tables0.len() && (#[trigger] tables0[i]).kb_id == id;
                            assert(i != t);
                        }
                    }
                    assert(!self.spec_has_table(kb_id)) by {
                        assert forall|i: int| 0 <= i < self.tables@.len() implies (
                        #[trigger] self.tables@[i]).kb_id != kb_id by {
                            if i < t {
                                assert(self.tables@[i] == tables0[i]);
                                if tables0[i].kb_id == kb_id {
                                    assert(tables0[i].kb_id != tables0[t as int].kb_id);
                                }
                            } else {
                                assert(self.tables@[i] == tables0[i + 1]);
                                if tables0[i + 1].kb_id == kb_id {
                                    assert(tables0[i + 1].kb_id != tables0[t as int].kb_id);
                                }
                            }
                        }
                    }
                }
            },
            None => {},
        }
        self.kbs.remove(kb_index);
        proof {
            assert forall|id: i64| id != kb_id implies (self.spec_has_kb(id) <==> old(
                self,
            ).spec_has_kb(id)) by {
                lemma_remove_preserves_others_kb(old(self).kbs@, kb_index as int, id);
            }
            assert(!self.spec_has_kb(kb_id)) by {
                assert forall|i: int| 0 <= i < self.kbs@.len() implies (
                #[trigger] self.kbs@[i]).id != kb_id by {
                    if i < kb_index {
                        assert(self.kbs@[i] == old(self).kbs@[i]);
                    } else {
                        assert(self.kbs@[i] == old(self).kbs@[i + 1]);
                    }
                }
            }
            assert(!self.spec_has_table(kb_id));
        }
        Ok(DeleteKnowledgeBaseResponse { name })
    }

    /// Stores an uploaded file: the metadata row under a fresh id and the
    /// blob beside it. Uploads outside any knowledge base use id `0`; any
    /// other knowledge base must exist.
    pub fn upload_file(
        &mut self,
        kb_id: i64,
        filename: String,
        content: Vec<u8>,
        purpose: String,
        now: i64,
    ) -> (r: Result<File, CoreError>)
        requires
            old(self).wf(),
            content@.len() <= i64::MAX,
    ensures
            final(self).wf(),
            r is Err ==> *final(self) == *old(self),
            kb_id != 0 && !old(self).spec_has_kb(kb_id) ==> r is Err,
            (kb_id == 0 || old(self).spec_has_kb(kb_id)) && old(self).next_file_id != i64::MAX
                ==> r is Ok,
            r matches Ok(f) ==> {
                &&& f.id == old(self).next_file_id
                &&& f.kb_id == kb_id
                &&& f.filename@ == filename@
                &&& f.bytes == content@.len() as i64
                &&& f.purpose@ == purpose@
                &&& f.created_at == now
                &&& f.updated_at == now
                &&& final(self).files@.len() == old(self).files@.len() + 1
                &&& final(self).files@.last() == f
                &&& final(self).files@.subrange(0, old(self).files@.len() as int) == old(
                    self,
                ).files@
                &&& final(self).blobs@.len() == old(self).blobs@.len() + 1
                &&& final(self).blobs@.last().kb_id == kb_id
                &&& final(self).blobs@.last().filename@ == filename@
                &&& final(self).blobs@.last().content@ == content@
                &&& final(self).kbs@ == old(self).kbs@
                &&& final(self).tables@ == old(self).tables@
            },
    {
        if kb_id != 0 {
            match self.find_kb_index(kb_id) {
                Some(_) => {},
                None => {
                    return Err(CoreError::NotFound(String::from_str("knowledge base not found")));
                },
            }
        }
        if self.next_file_id == i64::MAX {
            return Err(CoreError::Store(String::from_str("file ids exhausted")));
        }
        let id = self.next_file_id;
        let row = File {
            id,
            kb_id,
            filename: filename.clone(),
            bytes: content.len() as i64,
            purpose,
            created_at: now,
            updated_at: now,
        };
        let rowc = File {
            id: row.id,
            kb_id: row.kb_id,
            filename: row.filename.clone(),
            bytes: row.bytes,
            purpose: row.purpose.clone(),
            created_at: row.created_at,
            updated_at: row.updated_at,
        };
        self.files.push(row);
        self.blobs.push(FileBlob { kb_id, filename, content });
        self.next_file_id = id + 1;
        proof {
            assert(self.files@.subrange(0, old(self).files@.len() as int) =~= old(self).files@);
            assert(rowc == self.files@.last());
        }
        Ok(rowc)
    }

    /// Lists the files of one knowledge base (id `0`: the files outside any
    /// knowledge base), in upload order.
    pub fn list_files(&self, kb_id: i64) -> (r: Result<openai::ListFilesResponse, CoreError>)
        requires
            self.wf(),
        ensures
            r is Ok <==> kb_id == 0 || self.spec_has_kb(kb_id),
            r matches Ok(resp) ==> {
                &&& resp.object@ == "list"@
                &&& resp.data@.len() == self.files@.filter(spec_file_pred(kb_id)).len()
                &&& forall|i: int|
                    0 <= i < resp.data@.len() ==> {
                        let f = self.files@.filter(spec_file_pred(kb_id))[i];
                        &&& (#[trigger] resp.data@[i]).id@ == spec_digits(f.id as nat)
                        &&& resp.data@[i].bytes == f.bytes
                        &&& resp.data@[i].created_at == f.created_at
                        &&& resp.data@[i].filename@ == f.filename@
                        &&& resp.data@[i].object@ == "file"@
                        &&& resp.data@[i].purpose@ == f.purpose@
                    }
            },
    {
        if kb_id != 0 {
            match self.find_kb_index(kb_id) {
                Some(_) => {},
                None => {
                    return Err(CoreError::NotFound(String::from_str("knowledge base not found")));
                },
            }
        }
        let n = self.files.len();
        let mut data: Vec<openai::File> = Vec::new();
        let mut i: usize = 0;
        while i < n
            invariant
                0 <= i <= n,
                n == self.files@.len(),
                self.wf(),
                data@.len() == self.files@.subrange(0, i as int).filter(
                    spec_file_pred(kb_id)).len(),
                forall|k: int|
                    0 <= k < data@.len() ==> {
                        let f = self.files@.subrange(0, i as int).filter(
                            spec_file_pred(kb_id),
                        )[k];
                        &&& (#[trigger] data@[k]).id@ == spec_digits(f.id as nat)
                        &&& data@[k].bytes == f.bytes
                        &&& data@[k].created_at == f.created_at
                        &&& data@[k].filename@ == f.filename@
                        &&& data@[k].object@ == "file"@
                        &&& data@[k].purpose@ == f.purpose@
                    },
            decreases n - i,
        {
            let ghost pre = self.files@.subrange(0, i as int);
            let f = &self.files[i];
            if f.kb_id == kb_id {
                proof {
                    assert(f.id >= 1);
                }
                data.push(
                    openai::File {
                        id: u64_to_string(f.id as u64),
                        bytes: f.bytes,
                        created_at: f.created_at,
                        filename: f.filename.clone(),
                        object: String::from_str("file"),
                        purpose: f.purpose.clone(),
                    },
                );
            }
            proof {
                let cur = self.files@.subrange(0, i as int + 1);
                assert(cur =~= pre + seq![self.files@[i as int]]);
                Seq::<File>::filter_distributes_over_add(
                    pre,
                    seq![self.files@[i as int]],
                    spec_file_pred(kb_id),
                );
                reveal_with_fuel(Seq::<_>::filter, 2);
                assert(seq![self.files@[i as int]].drop_last() =~= Seq::<File>::empty());
                if self.files@[i as int].kb_id == kb_id {
                    assert(seq![self.files@[i as int]].filter(spec_file_pred(kb_id)) =~= seq![
                        self.files@[i as int],
                    ]);
                } else {
                    assert(seq![self.files@[i as int]].filter(spec_file_pred(kb_id))
                        =~= Seq::<File>::empty());
                }
            }
            i += 1;
        }
        proof {
            assert(self.files@.subrange(0, n as int) =~= self.files@);
        }
        Ok(openai::ListFilesResponse { object: String::from_str("list"), data })
    }

    /// Deletes one file of a knowledge base: fails when the knowledge base
    /// (unless `0`) or the file is unknown; removes the row and its blob.
    pub fn delete_file(&mut self, kb_id: i64, file_id: i64) -> (r: Result<
        openai::DeleteFileResponse,
        CoreError,
    >)
        requires
            old(self).wf(),
        ensures
            final(self).wf(),
            r is Err ==> *final(self) == *old(self),
            kb_id != 0 && !old(self).spec_has_kb(kb_id) ==> r is Err,
            (kb_id == 0 || old(self).spec_has_kb(kb_id)) ==> (r is Ok <==> old(self).spec_has_file(
                file_id,
                kb_id,
            )),
            r matches Ok(resp) ==> {
                &&& resp.id@ == spec_digits(file_id as nat)
                &&& resp.object@ == "file"@
                &&& resp.deleted
                &&& !final(self).spec_has_file(file_id, kb_id)
                &&& final(self).files@.len() == old(self).files@.len() - 1
                &&& final(self).kbs@ == old(self).kbs@
                &&& final(self).tables@ == old(self).tables@
                &&& exists|fi: int|
                    #![trigger old(self).files@[fi]]
                    {
                        &&& 0 <= fi < old(self).files@.len()
                        &&& old(self).files@[fi].id == file_id
                        &&& old(self).files@[fi].kb_id == kb_id
                        &&& ({
                            let fname = old(self).files@[fi].filename@;
                            if exists|b: int|
                                0 <= b < old(self).blobs@.len() && spec_blob_matches(
                                    #[trigger] old(self).blobs@[b],
                                    kb_id,
                                    fname,
                                ) {
                                exists|b: int|
                                    #![trigger old(self).blobs@[b]]
                                    {
                                        &&& 0 <= b < old(self).blobs@.len()
                                        &&& spec_blob_matches(old(self).blobs@[b], kb_id, fname)
                                        &&& forall|j: int|
                                            0 <= j < b ==> !spec_blob_matches(
                                                #[trigger] old(self).blobs@[j],
                                                kb_id,
                                                fname,
                                            )
                                        &&& final(self).blobs@ == old(self).blobs@.remove(b)
                                    }
                            } else {
                                final(self).blobs@ == old(self).blobs@
                            }
                        })
                    }
            },
    {
        if kb_id != 0 {
            match self.find_kb_index(kb_id) {
                Some(_) => {},
                None => {
                    return Err(CoreError::NotFound(String::from_str("knowledge base not found")));
                },
            }
        }
        let file_index = match self.find_file_index(file_id, kb_id) {
            Some(i) => i,
            None => {
                return Err(CoreError::NotFound(String::from_str("file not found")));
            },
        };
        let filename = self.files[file_index].filename.clone();
        let ghost fname = filename@;
        match self.find_blob_index(kb_id, &filename) {
            Some(b) => {
                self.blobs.remove(b);
                proof {
                    assert(self.blobs@ == old(self).blobs@.remove(b as int));
                    assert(spec_blob_matches(old(self).blobs@[b as int], kb_id, fname));
                }
            },
            None => {
                proof {
                    assert(forall|j: int|
                        0 <= j < old(self).blobs@.len() ==> !spec_blob_matches(
                            #[trigger] old(self).blobs@[j],
                            kb_id,
                            fname,
                        ));
                }
            },
        }
        self.files.remove(file_index);
        proof {
            assert(old(self).files@[file_index as int].filename@ == fname);
        }
        proof {
            assert(!self.spec_has_file(file_id, kb_id)) by {
                assert forall|i: int| 0 <= i < self.files@.len() implies !((
                #[trigger] self.files@[i]).id == file_id && self.files@[i].kb_id == kb_id) by {
                    if i < file_index {
                        assert(self.files@[i] == old(self).files@[i]);
                    } else {
                        assert(self.files@[i] == old(self).files@[i + 1]);
                    }
                }
            }
        }
        Ok(
            openai::DeleteFileResponse {
                id: u64_to_string(file_id as u64),
                object: String::from_str("file"),
                deleted: true,
            },
        )
    }
}

proof fn lemma_remove_preserves_others_kb(s: Seq<KnowledgeBase>, at: int, id: i64)
    requires
        0 <= at < s.len(),
    ensures
        (exists|i: int| 0 <= i < s.remove(at).len() && (#[trigger] s.remove(at)[i]).id == id)
            <==> (exists|i: int| 0 <= i < s.len() && i != at && (#[trigger] s[i]).id == id),
{
    let t = s.remove(at);
    if exists|i: int| 0 <= i < t.len() && (#[trigger] t[i]).id == id {
        let i = choose|i: int| 0 <= i < t.len() && (#[trigger] t[i]).id == id;
        if i < at {
            assert(s[i].id == id && i != at);
        } else {
            assert(s[i + 1].id == id && i + 1 != at);
        }
    }
    if exists|i: int| 0 <= i < s.len() && i != at && (#[trigger] s[i]).id == id {
        let i = choose|i: int| 0 <= i < s.len() && i != at && (#[trigger] s[i]).id == id;
        if i < at {
            assert(t[i].id == id);
        } else {
            assert(t[i - 1].id == id);
        }
    }
}

proof fn lemma_remove_preserves_others_table(s: Seq<VectorTable>, at: int, id: i64)
    requires
        0 <= at < s.len(),
    ensures
        (exists|i: int| 0 <= i < s.remove(at).len() && (#[trigger] s.remove(at)[i]).kb_id == id)
            <==> (exists|i: int| 0 <= i < s.len() && i != at && (#[trigger] s[i]).kb_id == id),
{
    let t = s.remove(at);
    if exists|i: int| 0 <= i < t.len() && (#[trigger] t[i]).kb_id == id {
        let i = choose|i: int| 0 <= i < t.len() && (#[trigger] t[i]).kb_id == id;
        if i < at {
            assert(s[i].kb_id == id && i != at);
        } else {
            assert(s[i + 1].kb_id == id && i + 1 != at);
        }
    }
    if exists|i: int| 0 <= i < s.len() && i != at && (#[trigger] s[i]).kb_id == id {
        let i = choose|i: int| 0 <= i < s.len() && i != at && (#[trigger] s[i]).kb_id == id;
        if i < at {
            assert(t[i].kb_id == id);
        } else {
            assert(t[i - 1].kb_id == id);
        }
    }
}


/// Squared distance over the first `n` coordinates of two vectors.
pub open spec fn spec_dist_prefix(a: Seq<i64>, b: Seq<i64>, n: int) -> int
    decreases n,
{
    if n <= 0 {
        0
    } else {
        let d = a[n - 1] as int - b[n - 1] as int;
        spec_dist_prefix(a, b, n - 1) + d * d
    }
}

/// Squared Euclidean distance between two vectors of equal dimension.
pub open spec fn spec_dist(a: Seq<i64>, b: Seq<i64>) -> int {
    spec_dist_prefix(a, b, a.len() as int)
}

proof fn lemma_dist_prefix_nonneg(a: Seq<i64>, b: Seq<i64>, n: int)
    ensures
        spec_dist_prefix(a, b, n) >= 0,
    decreases n,
{
    if n > 0 {
        lemma_dist_prefix_nonneg(a, b, n - 1);
        let d = a[n - 1] as int - b[n - 1] as int;
        assert(d * d >= 0) by (nonlinear_arith);
    }
}

proof fn lemma_dist_self(a: Seq<i64>, n: int)
    ensures
        spec_dist_prefix(a, a, n) == 0,
    decreases n,
{
    if n > 0 {
        lemma_dist_self(a, n - 1);
    }
}

proof fn lemma_dist_pos_at(a: Seq<i64>, b: Seq<i64>, n: int, j: int)
    requires
        0 <= j < n,
        a[j] != b[j],
    ensures
        spec_dist_prefix(a, b, n) > 0,
    decreases n,
{
    let d = a[n - 1] as int - b[n - 1] as int;
    if j == n - 1 {
        lemma_dist_prefix_nonneg(a, b, n - 1);
        assert(d != 0);
        assert(d * d > 0) by (nonlinear_arith)
            requires
                d != 0,
        ;
    } else {
        lemma_dist_pos_at(a, b, n - 1, j);
        assert(d * d >= 0) by (nonlinear_arith);
    }
}

/// `k` is the index retrieval picks for query `q`: a row at minimal distance,
/// the earliest such row.
pub open spec fn spec_is_argmin(recs: Seq<EmbeddingRecord>, q: Seq<i64>, k: int) -> bool {
    &&& 0 <= k < recs.len()
    &&& forall|j: int|
        0 <= j < recs.len() ==> spec_dist(recs[k].vector@, q) <= spec_dist(
            (#[trigger] recs[j]).vector@,
            q,
        )
    &&& forall|j: int|
        0 <= j < k ==> spec_dist((#[trigger] recs[j]).vector@, q) > spec_dist(recs[k].vector@, q)
}

/// The two records carry the same data.
pub open spec fn spec_same_record(a: EmbeddingRecord, b: EmbeddingRecord) -> bool {
    &&& a.id@ == b.id@
    &&& a.kb_id == b.kb_id
    &&& a.file_id == b.file_id
    &&& a.filename@ == b.filename@
    &&& a.text@ == b.text@
    &&& a.vector@ == b.vector@
}

/// Self-retrieval round trip: a record whose vector equals the query, where
/// no other record shares that vector, is at distance zero and is therefore
/// the one and only retrieval result.
pub proof fn lemma_self_retrieval(recs: Seq<EmbeddingRecord>, q: Seq<i64>, k: int)
    requires
        0 <= k < recs.len(),
        recs[k].vector@ == q,
        forall|j: int| 0 <= j < recs.len() ==> (#[trigger] recs[j]).vector@.len() == q.len(),
        forall|j: int| 0 <= j < recs.len() && j != k ==> (#[trigger] recs[j]).vector@ != q,
    ensures
        spec_is_argmin(recs, q, k),
        forall|m: int| spec_is_argmin(recs, q, m) ==> m == k,
{
    lemma_dist_self(q, q.len() as int);
    assert(spec_dist(recs[k].vector@, q) == 0);
    assert forall|j: int| 0 <= j < recs.len() && j != k implies spec_dist(
        (#[trigger] recs[j]).vector@,
        q,
    ) > 0 by {
        let a = recs[j].vector@;
        if forall|idx: int| 0 <= idx < a.len() ==> a[idx] == q[idx] {
            assert(a =~= q);
        }
        let idx = choose|idx: int| 0 <= idx < a.len() && a[idx] != q[idx];
        lemma_dist_pos_at(a, q, a.len() as int, idx);
    }
    assert forall|m: int| spec_is_argmin(recs, q, m) implies m == k by {
        if m != k {
            assert(spec_dist(recs[m].vector@, q) <= spec_dist(recs[k].vector@, q));
        }
    }
}

fn dist(a: &Vec<i64>, b: &Vec<i64>) -> (r: i64)
    requires
        spec_valid_vector(a@),
        spec_valid_vector(b@),
    ensures
        r as int == spec_dist(a@, b@),
        r >= 0,
{
    let n = a.len();
    let mut acc: i64 = 0;
    let mut i: usize = 0;
    while i < n
        invariant
            0 <= i <= n,
            n == a@.len(),
            spec_valid_vector(a@),
            spec_valid_vector(b@),
            acc as int == spec_dist_prefix(a@, b@, i as int),
            0 <= acc as int <= (i as int) * 17592186044416,
        decreases n - i,
    {
        let d: i64 = a[i] - b[i];
        proof {
            assert((d as int) * (d as int) <= 17592186044416 && (d as int) * (d as int) >= 0)
                by (nonlinear_arith)
                requires
                    -4194304 <= d as int <= 4194304,
            ;
            assert((i as int + 1) * 17592186044416 == (i as int) * 17592186044416
                + 17592186044416) by (nonlinear_arith);
        }
        acc = acc + d * d;
        i += 1;
    }
    proof {
        lemma_dist_prefix_nonneg(a@, b@, n as int);
    }
    acc
}

fn valid_vector_exec(v: &Vec<i64>) -> (r: bool)
    ensures
        r == spec_valid_vector(v@),
{
    if v.len() != EMBEDDING_DIM {
        return false;
    }
    let n = v.len();
    let mut i: usize = 0;
    while i < n
        invariant
            0 <= i <= n,
            n == v@.len(),
            forall|j: int| 0 <= j < i ==> -MAX_COORD_ABS <= #[trigger] v@[j] <= MAX_COORD_ABS,
        decreases n - i,
    {
        let x = v[i];
        if x < -MAX_COORD_ABS || x > MAX_COORD_ABS {
            return false;
        }
        i += 1;
    }
    true
}

fn clone_record(r: &EmbeddingRecord) -> (c: EmbeddingRecord)
    ensures
        spec_same_record(c, *r),
{
    EmbeddingRecord {
        id: r.id.clone(),
        kb_id: r.kb_id,
        file_id: r.file_id,
        filename: r.filename.clone(),
        text: r.text.clone(),
        vector: r.vector.clone(),
    }
}

/// Relies on `uuid::Uuid::new_v4` and its hyphenated `Display` form: a fresh
/// random identifier always renders as exactly 36 characters.
#[verifier::external_body]
fn fresh_record_id() -> (r: String)
    ensures
        r@.len() == 36,
{
    uuid::Uuid::new_v4().to_string()
}

/// Relies on `String::from_utf8`: it succeeds exactly on valid UTF-8 input
/// and decodes the bytes to their character sequence.
#[verifier::external_body]
fn utf8_string(bytes: &Vec<u8>) -> (r: Option<String>)
    ensures
        r matches Some(s) ==> valid_utf8(bytes@) && s@ == decode_utf8(bytes@),
        r is None ==> !valid_utf8(bytes@),
{
    match String::from_utf8(bytes.clone()) {
        Ok(s) => Some(s),
        Err(_) => None,
    }
}

proof fn lemma_table_records_at(s: KnowledgeStore, t: int)
    requires
        s.wf(),
        0 <= t < s.tables@.len(),
    ensures
        s.spec_table_records(s.tables@[t].kb_id) == s.tables@[t].records@,
{
    let kb_id = s.tables@[t].kb_id;
    assert(s.spec_has_table(kb_id));
    let k = choose|i: int| 0 <= i < s.tables@.len() && (#[trigger] s.tables@[i]).kb_id == kb_id;
    if k != t {
        if k < t {
            assert(s.tables@[k].kb_id != s.tables@[t].kb_id);
        } else {
            assert(s.tables@[t].kb_id != s.tables@[k].kb_id);
        }
    }
}

/// Keeps the records whose id differs from the one being deleted.
pub open spec fn spec_keep_pred(eid: Seq<char>) -> spec_fn(EmbeddingRecord) -> bool {
    |r: EmbeddingRecord| r.id@ != eid
}

impl KnowledgeStore {
    /// Retrieval: the record of this knowledge base nearest to the query,
    /// the earliest on ties; `None` on an empty table; an error when the
    /// table does not exist.
    pub fn search_top1(&self, kb_id: i64, query: &Vec<i64>) -> (r: Result<
        Option<EmbeddingRecord>,
        CoreError,
    >)
        requires
            self.wf(),
            spec_valid_vector(query@),
        ensures
            r is Ok <==> self.spec_has_table(kb_id),
            r matches Ok(o) && o is None ==> self.spec_table_records(kb_id).len() == 0,
            r matches Ok(Some(rec)) ==> exists|k: int|
                spec_is_argmin(#[trigger] self.spec_table_records(kb_id), query@, k)
                    && spec_same_record(rec, self.spec_table_records(kb_id)[k]),
    {
        let t = match self.find_table_index(kb_id) {
            Some(t) => t,
            None => {
                return Err(CoreError::Store(String::from_str("knowledge base table not found")));
            },
        };
        proof {
            lemma_table_records_at(*self, t as int);
        }
        let recs = &self.tables[t].records;
        let n = recs.len();
        if n == 0 {
            return Ok(None);
        }
        let mut best: usize = 0;
        let mut best_dist: i64 = dist(&recs[0].vector, query);
        let mut i: usize = 1;
        while i < n
            invariant
                0 < i <= n,
                n == recs@.len(),
                self.wf(),
                0 <= t < self.tables@.len(),
                recs == &self.tables@[t as int].records,
                spec_valid_vector(query@),
                0 <= best < i,
                best_dist as int == spec_dist(recs@[best as int].vector@, query@),
                forall|j: int|
                    0 <= j < i ==> best_dist as int <= spec_dist(
                        (#[trigger] recs@[j]).vector@,
                        query@,
                    ),
                forall|j: int|
                    0 <= j < best ==> spec_dist((#[trigger] recs@[j]).vector@, query@)
                        > best_dist as int,
            decreases n - i,
        {
            let d = dist(&recs[i].vector, query);
            if d < best_dist {
                best = i;
                best_dist = d;
            }
            i += 1;
        }
        let out = clone_record(&recs[best]);
        proof {
            assert(spec_is_argmin(self.spec_table_records(kb_id), query@, best as int));
        }
        Ok(Some(out))
    }

    /// Inserts one embedding record into the table of its knowledge base.
    /// Fails when the table does not exist or the vector is not of the fixed
    /// dimension with bounded coordinates.
    pub fn insert_embedding(
        &mut self,
        kb_id: i64,
        id: String,
        file_id: i64,
        filename: String,
        text: String,
        vector: Vec<i64>,
    ) -> (r: Result<(), CoreError>)
        requires
            old(self).wf(),
        ensures
            final(self).wf(),
            r is Err ==> *final(self) == *old(self),
            !old(self).spec_has_table(kb_id) ==> r is Err,
            old(self).spec_has_table(kb_id) && spec_valid_vector(vector@) ==> r is Ok,
            old(self).spec_has_table(kb_id) && !spec_valid_vector(vector@) ==> r is Err,
            r is Ok ==> ({
                let recs0 = old(self).spec_table_records(kb_id);
                let recs1 = final(self).spec_table_records(kb_id);
                &&& recs1.len() == recs0.len() + 1
                &&& recs1.subrange(0, recs0.len() as int) == recs0
                &&& recs1.last().id@ == id@
                &&& recs1.last().kb_id == kb_id
                &&& recs1.last().file_id == file_id
                &&& recs1.last().filename@ == filename@
                &&& recs1.last().text@ == text@
                &&& recs1.last().vector@ == vector@
                &&& final(self).kbs@ == old(self).kbs@
                &&& final(self).files@ == old(self).files@
                &&& final(self).blobs@ == old(self).blobs@
                &&& final(self).spec_has_table(kb_id)
            }),
    {
        let t = match self.find_table_index(kb_id) {
            Some(t) => t,
            None => {
                return Err(CoreError::Store(String::from_str("knowledge base table not found")));
            },
        };
        if !valid_vector_exec(&vector) {
            return Err(CoreError::Store(String::from_str("embedding vector dimension mismatch")));
        }
        proof {
            lemma_table_records_at(*old(self), t as int);
        }
        let mut table = self.tables.remove(t);
        let rec = EmbeddingRecord { id, kb_id, file_id, filename, text, vector };
        table.records.push(rec);
        self.tables.insert(t, table);
        proof {
            assert(self.tables@.len() == old(self).tables@.len());
            assert forall|i: int| 0 <= i < self.tables@.len() implies self.tables@[i]
                == if i == t as int {
                self.tables@[t as int]
            } else {
                old(self).tables@[i]
            } by {
                assert(self.tables@ == old(self).tables@.remove(t as int).insert(
                    t as int,
                    self.tables@[t as int],
                ));
            }
            assert(self.tables@[t as int].kb_id == kb_id);
            assert(spec_table_wf(self.tables@[t as int]));
            lemma_table_records_at(*self, t as int);
            assert(self.spec_table_records(kb_id).subrange(
                0,
                old(self).spec_table_records(kb_id).len() as int,
            ) =~= old(self).spec_table_records(kb_id));
        }
        Ok(())
    }

    /// Ingests one stored file into its knowledge base: reads the stored
    /// content as one text unit, embeds it, and inserts a fresh record. Each
    /// call adds a new row; nothing is deduplicated.
    pub fn create_embeddings<E: EmbeddingModel>(
        &mut self,
        kb_id: i64,
        file_id: i64,
        embedder: &mut E,
    ) -> (r: Result<(), CoreError>)
        requires
            old(self).wf(),
        ensures
            final(self).wf(),
            r is Err ==> *final(self) == *old(self),
            !old(self).spec_has_kb(kb_id) ==> r is Err,
            old(self).spec_has_kb(kb_id) && !old(self).spec_has_file(file_id, kb_id) ==> r is Err,
            r is Ok ==> ({
                let recs0 = old(self).spec_table_records(kb_id);
                let recs1 = final(self).spec_table_records(kb_id);
                &&& old(self).spec_has_kb(kb_id)
                &&& old(self).spec_has_file(file_id, kb_id)
                &&& recs1.len() == recs0.len() + 1
                &&& recs1.subrange(0, recs0.len() as int) == recs0
                &&& recs1.last().kb_id == kb_id
                &&& recs1.last().file_id == file_id
                &&& recs1.last().id@.len() == 36
                &&& spec_valid_vector(recs1.last().vector@)
                &&& exists|fi: int, b: int|
                    #![trigger old(self).files@[fi], old(self).blobs@[b]]
                    {
                        &&& 0 <= fi < old(self).files@.len()
                        &&& old(self).files@[fi].id == file_id
                        &&& old(self).files@[fi].kb_id == kb_id
                        &&& recs1.last().filename@ == old(self).files@[fi].filename@
                        &&& 0 <= b < old(self).blobs@.len()
                        &&& spec_blob_matches(
                            old(self).blobs@[b],
                            kb_id,
                            old(self).files@[fi].filename@,
                        )
                        &&& forall|j: int|
                            0 <= j < b ==> !spec_blob_matches(
                                #[trigger] old(self).blobs@[j],
                                kb_id,
                                old(self).files@[fi].filename@,
                            )
                        &&& valid_utf8(old(self).blobs@[b].content@)
                        &&& recs1.last().text@ == decode_utf8(old(self).blobs@[b].content@)
                    }
                &&& final(self).kbs@ == old(self).kbs@
                &&& final(self).files@ == old(self).files@
                &&& final(self).blobs@ == old(self).blobs@
            }),
            (exists|fi: int|
                #![trigger old(self).files@[fi]]
                {
                    &&& 0 <= fi < old(self).files@.len()
                    &&& old(self).files@[fi].id == file_id
                    &&& old(self).files@[fi].kb_id == kb_id
                    &&& forall|j: int|
                        0 <= j < old(self).blobs@.len() ==> !spec_blob_matches(
                            #[trigger] old(self).blobs@[j],
                            kb_id,
                            old(self).files@[fi].filename@,
                        )
                }) ==> r is Err,
            (exists|fi: int, b: int|
                #![trigger old(self).files@[fi], old(self).blobs@[b]]
                {
                    &&& 0 <= fi < old(self).files@.len()
                    &&& old(self).files@[fi].id == file_id
                    &&& old(self).files@[fi].kb_id == kb_id
                    &&& 0 <= b < old(self).blobs@.len()
                    &&& spec_blob_matches(old(self).blobs@[b], kb_id, old(self).files@[fi].filename@)
                    &&& forall|j: int|
                        0 <= j < b ==> !spec_blob_matches(
                            #[trigger] old(self).blobs@[j],
                            kb_id,
                            old(self).files@[fi].filename@,
                        )
                    &&& !valid_utf8(old(self).blobs@[b].content@)
                }) ==> r is Err,
    {
        match self.find_kb_index(kb_id) {
            Some(_) => {},
            None => {
                return Err(CoreError::NotFound(String::from_str("knowledge base not found")));
            },
        }
        let file_index = match self.find_file_index(file_id, kb_id) {
            Some(i) => i,
            None => {
                return Err(CoreError::NotFound(String::from_str("file not found")));
            },
        };
        let filename = self.files[file_index].filename.clone();
        let blob_index = match self.find_blob_index(kb_id, &filename) {
            Some(b) => b,
            None => {
                return Err(CoreError::Store(String::from_str("file content not found")));
            },
        };
        let text = match utf8_string(&self.blobs[blob_index].content) {
            Some(t) => t,
            None => {
                return Err(CoreError::Store(String::from_str("file content is not valid utf-8")));
            },
        };
        let mut prompts: Vec<String> = Vec::new();
        prompts.push(text.clone());
        let embeddings = match embedder.embedding_batch(&prompts) {
            Ok(e) => e,
            Err(e) => {
                return Err(e);
            },
        };
        let mut embeddings = embeddings;
        if embeddings.len() == 0 {
            return Err(CoreError::Engine(String::from_str("no embedding returned")));
        }
        let vector = embeddings.remove(0);
        let id = fresh_record_id();
        let ghost fname = filename@;
        match self.insert_embedding(kb_id, id, file_id, filename, text, vector) {
            Ok(()) => {
                proof {
                    let fx = file_index as int;
                    let bx = blob_index as int;
                    assert forall|fi: int|
                        0 <= fi < old(self).files@.len() && (#[trigger] old(self).files@[fi]).id
                            == file_id && old(self).files@[fi].kb_id == kb_id implies fi
                        == fx by {
                        if fi < fx {
                            assert(old(self).files@[fi].id != old(self).files@[fx].id);
                        }
                        if fx < fi {
                            assert(old(self).files@[fx].id != old(self).files@[fi].id);
                        }
                    }
                    assert(spec_blob_matches(old(self).blobs@[bx], kb_id, fname));
                    assert forall|b: int|
                        0 <= b < old(self).blobs@.len() && spec_blob_matches(
                            #[trigger] old(self).blobs@[b],
                            kb_id,
                            fname,
                        ) && (forall|j: int|
                            0 <= j < b ==> !spec_blob_matches(
                                #[trigger] old(self).blobs@[j],
                                kb_id,
                                fname,
                            )) implies b == bx by {
                        if b < bx {
                            assert(!spec_blob_matches(old(self).blobs@[b], kb_id, fname));
                        }
                        if bx < b {
                            assert(!spec_blob_matches(old(self).blobs@[bx], kb_id, fname));
                        }
                    }
                }
                Ok(())
            },
            Err(e) => Err(e),
        }
    }

    /// Lists the embedding rows of one knowledge base, numbered in order.
    pub fn list_embeddings(&self, kb_id: i64, model_id: ModelId) -> (r: Result<
        EmbeddingResponse,
        CoreError,
    >)
        requires
            self.wf(),
        ensures
            r is Ok <==> self.spec_has_kb(kb_id) && self.spec_has_table(kb_id),
            r matches Ok(resp) ==> ({
                let recs = self.spec_table_records(kb_id);
                &&& resp.object@ == "list"@
                &&& resp.usage.prompt_tokens == 0
                &&& resp.usage.total_tokens == 0
                &&& resp.embeddings@.len() == recs.len()
                &&& forall|i: int|
                    0 <= i < recs.len() ==> {
                        let e = #[trigger] resp.embeddings@[i];
                        &&& e.id@ == recs[i].id@
                        &&& e.kb_id == recs[i].kb_id
                        &&& e.file_id == recs[i].file_id
                        &&& e.filename@ == recs[i].filename@
                        &&& e.object@ == "embedding"@
                        &&& e.text@ == recs[i].text@
                        &&& e.embedding@ == recs[i].vector@
                        &&& e.index == i
                    }
            }),
    {
        match self.find_kb_index(kb_id) {
            Some(_) => {},
            None => {
                return Err(CoreError::NotFound(String::from_str("knowledge base not found")));
            },
        }
        let t = match self.find_table_index(kb_id) {
            Some(t) => t,
            None => {
                return Err(CoreError::Store(String::from_str("knowledge base table not found")));
            },
        };
        proof {
            lemma_table_records_at(*self, t as int);
        }
        let recs = &self.tables[t].records;
        let n = recs.len();
        let mut out: Vec<Embedding> = Vec::new();
        let mut i: usize = 0;
        while i < n
            invariant
                0 <= i <= n,
                n == recs@.len(),
                recs == &self.tables@[t as int].records,
                out@.len() == i,
                forall|k: int|
                    0 <= k < i ==> {
                        let e = #[trigger] out@[k];
                        &&& e.id@ == recs@[k].id@
                        &&& e.kb_id == recs@[k].kb_id
                        &&& e.file_id == recs@[k].file_id
                        &&& e.filename@ == recs@[k].filename@
                        &&& e.object@ == "embedding"@
                        &&& e.text@ == recs@[k].text@
                        &&& e.embedding@ == recs@[k].vector@
                        &&& e.index == k
                    },
            decreases n - i,
        {
            let rec = &recs[i];
            out.push(
                Embedding {
                    id: rec.id.clone(),
                    kb_id: rec.kb_id,
                    file_id: rec.file_id,
                    filename: rec.filename.clone(),
                    object: String::from_str("embedding"),
                    text: rec.text.clone(),
                    embedding: rec.vector.clone(),
                    index: i,
                },
            );
            i += 1;
        }
        Ok(
            EmbeddingResponse {
                object: String::from_str("list"),
                embeddings: out,
                model: String::from_str(model_id.as_str()),
                usage: EmbeddingsUsage { prompt_tokens: 0, total_tokens: 0 },
            },
        )
    }

    /// Deletes every embedding row with the given id from the knowledge
    /// base's table; an unknown id deletes nothing and is no error.
    pub fn delete_embeddings(&mut self, kb_id: i64, embedding_id: &String) -> (r: Result<
        (),
        CoreError,
    >)
        requires
            old(self).wf(),
        ensures
            final(self).wf(),
            r is Err ==> *final(self) == *old(self),
            r is Ok <==> old(self).spec_has_kb(kb_id) && old(self).spec_has_table(kb_id),
            r is Ok ==> ({
                &&& final(self).spec_table_records(kb_id) == old(self).spec_table_records(
                    kb_id,
                ).filter(spec_keep_pred(embedding_id@))
                &&& final(self).kbs@ == old(self).kbs@
                &&& final(self).files@ == old(self).files@
                &&& final(self).blobs@ == old(self).blobs@
            }),
    {
        match self.find_kb_index(kb_id) {
            Some(_) => {},
            None => {
                return Err(CoreError::NotFound(String::from_str("knowledge base not found")));
            },
        }
        let t = match self.find_table_index(kb_id) {
            Some(t) => t,
            None => {
                return Err(CoreError::Store(String::from_str("knowledge base table not found")));
            },
        };
        proof {
            lemma_table_records_at(*old(self), t as int);
        }
        let mut table = self.tables.remove(t);
        let ghost orig_records = table.records@;
        let mut remaining = table.records;
        let mut kept: Vec<EmbeddingRecord> = Vec::new();
        proof {
            reveal_with_fuel(Seq::<_>::filter, 2);
            assert(orig_records.filter(spec_keep_pred(embedding_id@)) =~= kept@
                + remaining@.filter(spec_keep_pred(embedding_id@)));
        }
        while remaining.len() > 0
            invariant
                orig_records.filter(spec_keep_pred(embedding_id@)) == kept@ + remaining@.filter(
                    spec_keep_pred(embedding_id@),
                ),
                forall|i: int|
                    0 <= i < remaining@.len() ==> spec_valid_record(
                        #[trigger] remaining@[i],
                        table.kb_id,
                    ),
                forall|i: int|
                    0 <= i < kept@.len() ==> spec_valid_record(#[trigger] kept@[i], table.kb_id),
            decreases remaining@.len(),
        {
            let ghost rem0 = remaining@;
            let rec = remaining.remove(0);
            let keep = !rec.id.eq(embedding_id);
            proof {
                assert(rem0 =~= seq![rec] + remaining@);
                Seq::<EmbeddingRecord>::filter_distributes_over_add(
                    seq![rec],
                    remaining@,
                    spec_keep_pred(embedding_id@),
                );
                reveal_with_fuel(Seq::<_>::filter, 2);
                assert(seq![rec].drop_last() =~= Seq::<EmbeddingRecord>::empty());
                if rec.id@ != embedding_id@ {
                    assert(seq![rec].filter(spec_keep_pred(embedding_id@)) =~= seq![rec]);
                } else {
                    assert(seq![rec].filter(spec_keep_pred(embedding_id@))
                        =~= Seq::<EmbeddingRecord>::empty());
                }
            }
            if keep {
                kept.push(rec);
            }
            proof {
                assert(orig_records.filter(spec_keep_pred(embedding_id@)) =~= kept@
                    + remaining@.filter(spec_keep_pred(embedding_id@)));
            }
        }
        proof {
            reveal_with_fuel(Seq::<_>::filter, 2);
            assert(remaining@.filter(spec_keep_pred(embedding_id@))
                =~= Seq::<EmbeddingRecord>::empty());
            assert(kept@ =~= orig_records.filter(spec_keep_pred(embedding_id@)));
        }
        table.records = kept;
        self.tables.insert(t, table);
        proof {
            lemma_table_records_at(*self, t as int);
        }
        Ok(())
    }
}


/// The grounding template: the original question, then the retrieved context.
pub fn splice_retrieved(original: &String, retrieved: &String) -> (r: String)
    ensures
        r@ == original@ + " answer question use the following information: "@ + retrieved@,
{
    let mut s = original.clone();
    s.append(" answer question use the following information: ");
    s.append(retrieved.as_str());
    s
}

impl KnowledgeStore {
    /// Rewrites the last message of a conversation with retrieved context:
    /// embeds its text, retrieves the nearest record of the knowledge base,
    /// and replaces the message by its text plus the retrieved text under the
    /// grounding template. A missing knowledge base or table, an empty
    /// conversation, or empty retrieval is an error, and the conversation is
    /// then left untouched.
    pub fn augment_last_message<E: EmbeddingModel>(
        &self,
        embedder: &mut E,
        kb_id: i64,
        messages: &mut ChatMessages,
    ) -> (r: Result<(), CoreError>)
        requires
            self.wf(),
        ensures
            r is Err ==> *final(messages) == *old(messages),
            !self.spec_has_kb(kb_id) ==> r is Err,
            self.spec_has_kb(kb_id) && !self.spec_has_table(kb_id) ==> r is Err,
            old(messages).0@.len() == 0 ==> r is Err,
            r is Ok ==> ({
                let msgs0 = old(messages).0@;
                let recs = self.spec_table_records(kb_id);
                &&& msgs0.len() > 0
                &&& recs.len() > 0
                &&& final(messages).0@.len() == msgs0.len()
                &&& final(messages).0@.subrange(0, msgs0.len() - 1) == msgs0.subrange(
                    0,
                    msgs0.len() - 1,
                )
                &&& final(messages).0@.last() matches ChatMessage::User {
                    content: UserContent::Text(t),
                    name: Option::None,
                } && (exists|v: Seq<i64>, ri: int|
                    #![trigger spec_is_argmin(recs, v, ri)]
                    {
                        &&& spec_valid_vector(v)
                        &&& spec_is_argmin(recs, v, ri)
                        &&& t@ == spec_message_text(msgs0.last())
                            + " answer question use the following information: "@ + recs[ri].text@
                    })
            }),
    {
        match self.find_kb_index(kb_id) {
            Some(_) => {},
            None => {
                return Err(CoreError::NotFound(String::from_str("knowledge base not found")));
            },
        }
        match self.find_table_index(kb_id) {
            Some(_) => {},
            None => {
                return Err(CoreError::Store(String::from_str("knowledge base table not found")));
            },
        }
        let count = messages.0.len();
        if count == 0 {
            return Err(CoreError::BadRequest(String::from_str("messages is empty")));
        }
        let last_text = messages.0[count - 1].message_text();
        let mut prompts: Vec<String> = Vec::new();
        prompts.push(last_text.clone());
        let embeddings = match embedder.embedding_batch(&prompts) {
            Ok(e) => e,
            Err(e) => {
                return Err(e);
            },
        };
        if embeddings.len() == 0 {
            return Err(CoreError::Engine(String::from_str("no embedding returned")));
        }
        let query = &embeddings[0];
        if !valid_vector_exec(query) {
            return Err(CoreError::Engine(String::from_str("embedding dimension mismatch")));
        }
        let found = match self.search_top1(kb_id, query) {
            Ok(o) => o,
            Err(e) => {
                return Err(e);
            },
        };
        let rec = match found {
            Some(rec) => rec,
            None => {
                return Err(CoreError::NotFound(String::from_str("no embeddings found")));
            },
        };
        proof {
            let recs = self.spec_table_records(kb_id);
            let k = choose|k: int| spec_is_argmin(recs, query@, k) && spec_same_record(rec, recs[k]);
            assert(spec_is_argmin(recs, query@, k));
            assert(rec.text@ == recs[k].text@);
        }
        let spliced = splice_retrieved(&last_text, &rec.text);
        let rewritten = ChatMessage::User { content: UserContent::Text(spliced), name: None };
        let ghost msgs0 = messages.0@;
        messages.0.remove(count - 1);
        messages.0.push(rewritten);
        proof {
            assert(messages.0@.subrange(0, msgs0.len() - 1) =~= msgs0.subrange(
                0,
                msgs0.len() - 1,
            ));
        }
        Ok(())
    }
}

} // verus!
