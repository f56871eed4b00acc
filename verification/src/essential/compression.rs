//! Сжатие и распаковка данных алгоритмом bzip2 (крейт `bzip2`).
use vstd::prelude::*;

verus! {

/// Байты, в которые `BzEncoder` с уровнем `Compression::best()` сжимает `data`.
pub uninterp spec fn bzip_compressed(data: Seq<u8>) -> Seq<u8>;

/// Байты, которые `BzDecoder` восстанавливает из `data`; `None`, если `data` --
/// не полный поток bzip2.
pub uninterp spec fn bzip_decompressed(data: Seq<u8>) -> Option<Seq<u8>>;

/// `bzip2::write::BzEncoder::new(Vec::new(), Compression::best())`, затем
/// `write_all(data)`, `flush()` и `finish()`.
///
/// Контракт: запись в `Vec` не отказывает, поэтому результат -- всегда `Ok`
/// с байтами `bzip_compressed(data)`; распаковка этих байтов даёт `data`
/// (bzip2 сжимает без потерь).
#[verifier::external_body]
fn bzip_encode(data: &[u8]) -> (r: Result<Vec<u8>, String>)
    ensures
        r is Ok,
        r matches Ok(c) ==> c@ == bzip_compressed(data@) && bzip_decompressed(c@) == Some(data@),
{
    let mut enc = bzip2::write::BzEncoder::new(Vec::new(), bzip2::Compression::best());
    if let Err(e) = std::io::Write::write_all(&mut enc, data) {
        return Err(e.to_string());
    }
    if let Err(e) = std::io::Write::flush(&mut enc) {
        return Err(e.to_string());
    }
    enc.finish().map_err(|e| e.to_string())
}

/// `bzip2::write::BzDecoder::new(Vec::new())`, затем `write_all(data)`,
/// `flush()` и `finish()`.
///
/// Контракт: `Ok` ровно тогда, когда `bzip_decompressed(data)` есть, и тогда
/// результат -- эти байты. Текст ошибки (сообщение `io::Error`) не описан.
#[verifier::external_body]
fn bzip_decode(data: &[u8]) -> (r: Result<Vec<u8>, String>)
    ensures
        r is Ok <==> bzip_decompressed(data@) is Some,
        r matches Ok(v) ==> bzip_decompressed(data@) == Some(v@),
{
    let mut dec = bzip2::write::BzDecoder::new(Vec::new());
    if let Err(e) = std::io::Write::write_all(&mut dec, data) {
        return Err(e.to_string());
    }
    if let Err(e) = std::io::Write::flush(&mut dec) {
        return Err(e.to_string());
    }
    dec.finish().map_err(|e| e.to_string())
}

/// Сжатие bzip2 с наилучшим уровнем. Всегда успешно; распаковка результата
/// возвращает исходные данные.
pub fn compress_bzip(data: &[u8]) -> (r: Result<Vec<u8>, String>)
    ensures
        r is Ok,
        r matches Ok(c) ==> c@ == bzip_compressed(data@),
        r matches Ok(c) ==> bzip_decompressed(c@) == Some(data@),
{
    bzip_encode(data)
}

/// Распаковка потока bzip2: ошибка, если `data` -- не полный поток bzip2.
pub fn decompress_bzip(data: &[u8]) -> (r: Result<Vec<u8>, String>)
    ensures
        r is Ok <==> bzip_decompressed(data@) is Some,
        r matches Ok(v) ==> bzip_decompressed(data@) == Some(v@),
{
    bzip_decode(data)
}

} // verus!
