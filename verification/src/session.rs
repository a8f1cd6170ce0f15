use vstd::prelude::*;
use crate::record::Record;
use crate::codec::{decode_records, decode_vector, spec_encode_records, spec_encode_vector};
use crate::integrity::{bytes_eq, chunk_digest, transfer_mac, spec_chunk_digest, spec_transfer_mac};
use crate::names::{is_csv_name, is_txt_name, spec_is_csv_name, spec_is_txt_name};

verus! {

/// Why a transfer request was refused.
#[derive(Clone, Copy, PartialEq, Eq, Structural, Debug)]
pub enum TransferError {
    /// A chunk arrived whose digest does not match its bytes.
    ChunkIntegrity,
    /// The whole-transfer MAC does not match the accumulated payload.
    MacIntegrity,
    /// The reassembled payload does not decode under the schema that
    /// the filename's extension calls for.
    Codec,
}

/// What a finished transfer decoded to.
#[derive(Debug)]
pub enum Artifact {
    /// A tabular dataset under the record schema (`.csv` names).
    Records(Vec<Record>),
    /// A flat numeric vector of 8-byte bit patterns (`.txt` names).
    Vector(Vec<u64>),
    /// A payload under a filename with any other extension: handed
    /// back as it arrived, not decoded.
    Opaque(Vec<u8>),
}

/// What a training request resolves to.
#[derive(Debug)]
pub enum TrainingLaunch {
    /// No training dataset was ever primed.
    MissingDataset,
    /// Train against the named artifact.
    Run(Vec<u8>),
}

/// What a prediction request resolves to.
#[derive(Debug)]
pub enum PredictionLaunch {
    /// No prediction dataset was ever primed.
    MissingDataset,
    /// No model coefficients were ever primed.
    MissingModel,
    /// Predict with the named model over the named dataset.
    Run { data: Vec<u8>, model: Vec<u8> },
}

/// The server's session state: one in-flight transfer's accumulated
/// bytes, and the filenames remembered for each purpose (an empty name
/// means that the purpose was never primed).
#[derive(Debug)]
pub struct MyServer {
    /// Bytes accepted so far for the transfer in flight.
    pub received_data: Vec<u8>,
    /// Filename primed for model coefficients.
    pub coefs_path: Vec<u8>,
    /// Filename primed for training data.
    pub training_file: Vec<u8>,
    /// Filename primed for prediction data.
    pub prediction_file: Vec<u8>,
}

impl Default for MyServer {
    /// A fresh server: nothing received, nothing primed.
    fn default() -> (s: Self)
        ensures
            s.received_data@ == Seq::<u8>::empty(),
            s.coefs_path@ == Seq::<u8>::empty(),
            s.training_file@ == Seq::<u8>::empty(),
            s.prediction_file@ == Seq::<u8>::empty(),
    {
        MyServer::new()
    }
}

impl MyServer {
    /// A fresh server: nothing received, nothing primed.
    pub fn new() -> (s: Self)
        ensures
            s.received_data@ == Seq::<u8>::empty(),
            s.coefs_path@ == Seq::<u8>::empty(),
            s.training_file@ == Seq::<u8>::empty(),
            s.prediction_file@ == Seq::<u8>::empty(),
    {
        MyServer {
            received_data: Vec::new(),
            coefs_path: Vec::new(),
            training_file: Vec::new(),
            prediction_file: Vec::new(),
        }
    }

    /// Begin a transfer: remember the declared purpose's filename and
    /// start from an empty accumulation buffer.  The purpose flags pick
    /// the slot as the protocol does: `train` wins, then `coefs`, else
    /// prediction data.
    pub fn priming_send(&mut self, filename: Vec<u8>, train: bool, coefs: bool)
        ensures
            final(self).received_data@ == Seq::<u8>::empty(),
            train ==> final(self).training_file@ == filename@
                && final(self).coefs_path == old(self).coefs_path
                && final(self).prediction_file == old(self).prediction_file,
            !train && coefs ==> final(self).coefs_path@ == filename@
                && final(self).training_file == old(self).training_file
                && final(self).prediction_file == old(self).prediction_file,
            !train && !coefs ==> final(self).prediction_file@ == filename@
                && final(self).training_file == old(self).training_file
                && final(self).coefs_path == old(self).coefs_path,
    {
        self.received_data = Vec::new();
        if train {
            self.training_file = filename;
        } else if coefs {
            self.coefs_path = filename;
        } else {
            self.prediction_file = filename;
        }
    }

    /// Accept one chunk: recompute its digest over the received bytes
    /// and compare with the claimed digest.  On a match the bytes are
    /// appended to the accumulation buffer; on a mismatch nothing at
    /// all changes and the chunk is refused.
    pub fn send_file(&mut self, content: Vec<u8>, digest: &Vec<u8>) -> (r: Result<
        (),
        TransferError,
    >)
        ensures
            r is Ok <==> digest@ == spec_chunk_digest(content@),
            r is Ok ==> final(self).received_data@ == old(self).received_data@ + content@,
            r is Err ==> *final(self) == *old(self) && r == Err::<(), TransferError>(
                TransferError::ChunkIntegrity,
            ),
            final(self).coefs_path == old(self).coefs_path,
            final(self).training_file == old(self).training_file,
            final(self).prediction_file == old(self).prediction_file,
    {
        let computed = chunk_digest(content.as_slice());
        if !bytes_eq(computed.as_slice(), digest.as_slice()) {
            return Err(TransferError::ChunkIntegrity);
        }
        let mut content = content;
        self.received_data.append(&mut content);
        Ok(())
    }

    /// Finish a transfer: recompute the keyed MAC over the whole
    /// accumulated payload and compare with the claimed MAC, then
    /// decode the payload under the schema the filename's extension
    /// calls for.  The buffer is cleared on every outcome, so a failed
    /// transfer cannot leak bytes into the next one.
    pub fn finish_transfer(&mut self, filename: &Vec<u8>, mac: &Vec<u8>, key: &Vec<u8>) -> (r:
        Result<Artifact, TransferError>)
        ensures
            final(self).received_data@ == Seq::<u8>::empty(),
            final(self).coefs_path == old(self).coefs_path,
            final(self).training_file == old(self).training_file,
            final(self).prediction_file == old(self).prediction_file,
            mac@ != spec_transfer_mac(key@, old(self).received_data@) ==> r == Err::<
                Artifact,
                TransferError,
            >(TransferError::MacIntegrity),
            mac@ == spec_transfer_mac(key@, old(self).received_data@) ==> if spec_is_csv_name(
                filename@,
            ) {
                match r {
                    Ok(Artifact::Records(v)) => old(self).received_data@ == spec_encode_records(
                        v@,
                    ),
                    Err(e) => e == TransferError::Codec && forall|rs: Seq<Record>|
                        old(self).received_data@ != spec_encode_records(rs),
                    _ => false,
                }
            } else if spec_is_txt_name(filename@) {
                match r {
                    Ok(Artifact::Vector(v)) => old(self).received_data@ == spec_encode_vector(v@),
                    Err(e) => e == TransferError::Codec && forall|vals: Seq<u64>|
                        old(self).received_data@ != spec_encode_vector(vals),
                    _ => false,
                }
            } else {
                match r {
                    Ok(Artifact::Opaque(b)) => b@ == old(self).received_data@,
                    _ => false,
                }
            },
    {
        let mut payload: Vec<u8> = Vec::new();
        core::mem::swap(&mut payload, &mut self.received_data);
        let computed = transfer_mac(key.as_slice(), payload.as_slice());
        if !bytes_eq(computed.as_slice(), mac.as_slice()) {
            return Err(TransferError::MacIntegrity);
        }
        if is_csv_name(filename.as_slice()) {
            match decode_records(payload.as_slice()) {
                Some(records) => Ok(Artifact::Records(records)),
                None => Err(TransferError::Codec),
            }
        } else if is_txt_name(filename.as_slice()) {
            match decode_vector(payload.as_slice()) {
                Some(vals) => Ok(Artifact::Vector(vals)),
                None => Err(TransferError::Codec),
            }
        } else {
            Ok(Artifact::Opaque(payload))
        }
    }

    /// Resolve a training request: refused while no training dataset
    /// was ever primed, otherwise the remembered artifact is trained
    /// against.
    pub fn launch_training(&self) -> (r: TrainingLaunch)
        ensures
            self.training_file@.len() == 0 ==> r is MissingDataset,
            self.training_file@.len() > 0 ==> (r matches TrainingLaunch::Run(f) && f@
                == self.training_file@),
    {
        if self.training_file.len() == 0 {
            TrainingLaunch::MissingDataset
        } else {
            TrainingLaunch::Run(self.training_file.clone())
        }
    }

    /// Resolve a prediction request: refused while the prediction
    /// dataset or the model coefficients were never primed, otherwise
    /// both remembered artifacts are used.
    pub fn launch_prediction(&self) -> (r: PredictionLaunch)
        ensures
            self.prediction_file@.len() == 0 ==> r is MissingDataset,
            self.prediction_file@.len() > 0 && self.coefs_path@.len() == 0 ==> r is MissingModel,
            self.prediction_file@.len() > 0 && self.coefs_path@.len() > 0 ==> (r
                matches PredictionLaunch::Run { data, model } && data@ == self.prediction_file@
                && model@ == self.coefs_path@),
    {
        if self.prediction_file.len() == 0 {
            PredictionLaunch::MissingDataset
        } else if self.coefs_path.len() == 0 {
            PredictionLaunch::MissingModel
        } else {
            PredictionLaunch::Run {
                data: self.prediction_file.clone(),
                model: self.coefs_path.clone(),
            }
        }
    }
}

} // verus!
