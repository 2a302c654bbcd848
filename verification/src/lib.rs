//! Conversion de fichiers tabulaires délimités (CSV/TSV) vers un format
//! colonnaire : utilitaires de texte, inférence de schéma par vote majoritaire,
//! analyse typée de blocs de lignes et mécanique de pipeline ordonné.

pub mod texte;
pub mod nombres;
pub mod utils;
pub mod dates;
pub mod enregistrement;
pub mod schema;
pub mod analyse;
pub mod conversion;
pub mod lois;
